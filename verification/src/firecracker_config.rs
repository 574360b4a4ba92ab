//! The microVM pilot's per-program configuration and its schema.
use vstd::prelude::*;

use crate::defaults;
use crate::error::FlakeError;
use crate::text::chars_of;
use crate::yamlmerge::merge_config_text;
use crate::yamlval::{
    bool_under, i64_under, list_under, read_bool, read_i64, read_string, read_string_list,
    str_under, yaml_get, yaml_get_of, yaml_parse, yaml_tree_of,
};

verus! {

/// A program's configuration: the VM section and the includes.
pub struct Config {
    pub vm: VMSection,
    pub includes: IncludeSection,
}

/// Tar archives and filesystem paths to overlay into the instance at
/// provisioning time.
pub struct IncludeSection {
    pub tar: Option<Vec<String>>,
    pub path: Option<Vec<String>>,
}

/// The VM registration: image name, target command, and runtime
/// parameters.
pub struct VMSection {
    /// Name of the VM in the local registry.
    pub name: String,
    /// Path of the program to call inside of the VM.
    pub target_app_path: Option<String>,
    /// Path of the program registered on the host.
    pub host_app_path: String,
    /// Optional runtime parameters.
    pub runtime: Option<RuntimeSection>,
}

/// Runtime parameters of the VM engine.
pub struct RuntimeSection {
    /// The identity the engine runs as.
    pub runas: String,
    /// Keep the instance alive and exec subsequent calls inside it.
    pub resume: bool,
    /// Use the vsock bridge even without resume.
    pub force_vsock: bool,
    /// The engine parameters of the VM monitor.
    pub firecracker: EngineSection,
}

/// The VM monitor's parameters: boot images, machine sizing, and the
/// optional writable overlay.
pub struct EngineSection {
    /// Size of the VM overlay; when given, an ext2 overlay image of this
    /// size is created and attached as a second drive.
    pub overlay_size: Option<String>,
    pub cache_type: Option<CacheType>,
    pub mem_size_mib: Option<i64>,
    pub vcpu_count: Option<i64>,
    /// Path to the rootfs image.
    pub rootfs_image_path: String,
    /// Path to the kernel image.
    pub kernel_image_path: String,
    /// Optional path to the initrd image.
    pub initrd_path: Option<String>,
    /// Base kernel boot arguments.
    pub boot_args: Vec<String>,
}

/// The drive cache mode handed to the VM monitor.
pub enum CacheType {
    Writeback,
    Unsafe,
}

impl CacheType {
    /// The mode's name in the monitor's configuration.
    pub fn as_str(&self) -> (r: &'static str)
        ensures
            match self {
                CacheType::Writeback => r@ == "Writeback"@,
                CacheType::Unsafe => r@ == "Unsafe"@,
            },
    {
        match self {
            CacheType::Writeback => "Writeback",
            CacheType::Unsafe => "Unsafe",
        }
    }
}

impl Config {
    /// The validity rules of the data model: a non-empty VM name, a
    /// target path that is `/` or absolute, and no resume together with
    /// an entrypoint-only target.
    pub open spec fn wf(&self) -> bool {
        &&& self.vm.name@.len() > 0
        &&& match self.vm.target_app_path {
            Some(t) => t@.len() > 0 && t@[0] == '/',
            None => true,
        }
        &&& !(self.spec_resume() && self.spec_target_is_entrypoint())
    }

    /// Whether resume mode is configured.
    pub open spec fn spec_resume(&self) -> bool {
        match self.vm.runtime {
            Some(rt) => rt.resume,
            None => false,
        }
    }

    /// Whether the configured target is the image entrypoint (`/`).
    pub open spec fn spec_target_is_entrypoint(&self) -> bool {
        match self.vm.target_app_path {
            Some(t) => t@ == "/"@,
            None => false,
        }
    }

    /// The runtime section, or the default one when none is configured.
    pub fn runtime(&self) -> (r: &Option<RuntimeSection>)
        ensures
            r == &self.vm.runtime,
    {
        &self.vm.runtime
    }

    /// The configured tar includes, empty when none were given.
    pub fn tars(&self) -> (r: Vec<String>)
        ensures
            r.deep_view() == crate::podman_config::opt_list_view(&self.includes.tar),
    {
        crate::podman_config::clone_opt_list(&self.includes.tar)
    }

    /// The configured path includes, empty when none were given.
    pub fn paths(&self) -> (r: Vec<String>)
        ensures
            r.deep_view() == crate::podman_config::opt_list_view(&self.includes.path),
    {
        crate::podman_config::clone_opt_list(&self.includes.path)
    }
}


/// The value tree of the merged document.
pub open spec fn doc_of(input: Seq<char>) -> Option<serde_yaml::Value> {
    yaml_tree_of(crate::yamlmerge::merged_config(input))
}

/// The vm section of the merged document.
pub open spec fn vm_node(input: Seq<char>) -> Option<serde_yaml::Value> {
    match doc_of(input) {
        Some(d) => yaml_get_of(d, "vm"@),
        None => None,
    }
}

/// The configured VM name.
pub open spec fn name_of(input: Seq<char>) -> Option<Seq<char>> {
    match vm_node(input) {
        Some(v) => str_under(v, "name"@),
        None => None,
    }
}

/// The configured host application path.
pub open spec fn host_app_path_of(input: Seq<char>) -> Option<Seq<char>> {
    match vm_node(input) {
        Some(v) => str_under(v, "host_app_path"@),
        None => None,
    }
}

/// The configured target application path.
pub open spec fn target_of(input: Seq<char>) -> Option<Seq<char>> {
    match vm_node(input) {
        Some(v) => str_under(v, "target_app_path"@),
        None => None,
    }
}

/// The runtime section of the merged document.
pub open spec fn runtime_node(input: Seq<char>) -> Option<serde_yaml::Value> {
    match vm_node(input) {
        Some(v) => yaml_get_of(v, "runtime"@),
        None => None,
    }
}

/// The engine section of the merged document.
pub open spec fn engine_node(input: Seq<char>) -> Option<serde_yaml::Value> {
    match runtime_node(input) {
        Some(rt) => yaml_get_of(rt, "firecracker"@),
        None => None,
    }
}

/// A string under the engine section.
pub open spec fn engine_str_of(input: Seq<char>, key: Seq<char>) -> Option<Seq<char>> {
    match engine_node(input) {
        Some(e) => str_under(e, key),
        None => None,
    }
}

/// An integer under the engine section.
pub open spec fn engine_i64_of(input: Seq<char>, key: Seq<char>) -> Option<i64> {
    match engine_node(input) {
        Some(e) => i64_under(e, key),
        None => None,
    }
}

/// The configured base boot arguments, empty when none are given.
pub open spec fn boot_args_of(input: Seq<char>) -> Seq<Seq<char>> {
    match engine_node(input) {
        Some(e) => match list_under(e, "boot_args"@) {
            Some(l) => l,
            None => Seq::empty(),
        },
        None => Seq::empty(),
    }
}

/// The configured runas name, empty when none is given.
pub open spec fn runas_of(input: Seq<char>) -> Seq<char> {
    match runtime_node(input) {
        Some(rt) => match str_under(rt, "runas"@) {
            Some(n) => n,
            None => Seq::empty(),
        },
        None => Seq::empty(),
    }
}

/// Whether resume mode is configured in the document.
pub open spec fn resume_configured(input: Seq<char>) -> bool {
    match runtime_node(input) {
        Some(rt) => bool_under(rt, "resume"@, false),
        None => false,
    }
}

/// Whether the vsock bridge is forced in the document.
pub open spec fn force_vsock_configured(input: Seq<char>) -> bool {
    match runtime_node(input) {
        Some(rt) => bool_under(rt, "force_vsock"@, false),
        None => false,
    }
}

/// The includes section of the merged document.
pub open spec fn includes_node(input: Seq<char>) -> Option<serde_yaml::Value> {
    match doc_of(input) {
        Some(d) => yaml_get_of(d, "include"@),
        None => None,
    }
}

/// The configured tar includes.
pub open spec fn tars_of(input: Seq<char>) -> Option<Seq<Seq<char>>> {
    match includes_node(input) {
        Some(inc) => list_under(inc, "tar"@),
        None => None,
    }
}

/// The configured path includes.
pub open spec fn paths_of(input: Seq<char>) -> Option<Seq<Seq<char>>> {
    match includes_node(input) {
        Some(inc) => list_under(inc, "path"@),
        None => None,
    }
}

/// Whether the configured target is valid: absent, or absolute.
pub open spec fn target_valid(input: Seq<char>) -> bool {
    match target_of(input) {
        Some(t) => t.len() > 0 && t[0] == '/',
        None => true,
    }
}

/// Whether the configured target is the image entrypoint.
pub open spec fn target_is_entry(input: Seq<char>) -> bool {
    target_of(input) == Some("/"@)
}

/// The schema conditions checked before the resume rule: the document
/// parses, a vm section with a non-empty name and a host path stands in
/// it, the target is absent or absolute, and a runtime section, where
/// given, carries an engine section with the rootfs and kernel paths.
pub open spec fn schema_pre_ok(input: Seq<char>) -> bool {
    &&& doc_of(input) is Some
    &&& vm_node(input) is Some
    &&& (name_of(input) matches Some(n) && n.len() > 0)
    &&& host_app_path_of(input) is Some
    &&& target_valid(input)
    &&& (runtime_node(input) is Some ==> {
        &&& engine_node(input) is Some
        &&& engine_str_of(input, "rootfs_image_path"@) is Some
        &&& engine_str_of(input, "kernel_image_path"@) is Some
    })
}

/// Exactly when the reader succeeds.
pub open spec fn parse_ok(input: Seq<char>) -> bool {
    &&& schema_pre_ok(input)
    &&& !(resume_configured(input) && target_is_entry(input))
    &&& includes_node(input) is Some
}

/// Exactly when the reader refuses with `UnknownCommand`.
pub open spec fn refused_unknown_command(input: Seq<char>) -> bool {
    &&& schema_pre_ok(input)
    &&& resume_configured(input)
    &&& target_is_entry(input)
}

/// Read a program's configuration from its concatenated YAML text.
///
/// The text is merged so that the last occurrence of each top-level key
/// wins, then read against the strict schema.  The contract pins the
/// result exactly, over the names of the YAML reader's results: the
/// reader succeeds if and only if `parse_ok` holds of the input, every
/// field of the returned configuration equals what the merged document
/// configures, and `UnknownCommand` comes exactly when a schema-valid
/// document configures resume with the entrypoint-only target.
#[verifier::rlimit(100)]
pub fn config_from_str(input: &str) -> (r: Result<Config, FlakeError>)
    ensures
        r is Ok <==> parse_ok(input@),
        (r matches Err(e) && e matches FlakeError::UnknownCommand) <==> refused_unknown_command(
            input@,
        ),
        r matches Err(e) ==> (e matches FlakeError::IOError { .. } || e
            matches FlakeError::UnknownCommand),
        r matches Ok(c) ==> {
            &&& c.wf()
            &&& Some(c.vm.name@) == name_of(input@)
            &&& Some(c.vm.host_app_path@) == host_app_path_of(input@)
            &&& crate::podman_config::opt_str_view(&c.vm.target_app_path) == target_of(input@)
            &&& (c.vm.runtime is Some <==> runtime_node(input@) is Some)
            &&& (match c.vm.runtime {
                Some(rt) => {
                    &&& rt.runas@ == runas_of(input@)
                    &&& rt.resume == resume_configured(input@)
                    &&& rt.force_vsock == force_vsock_configured(input@)
                    &&& crate::podman_config::opt_str_view(&rt.firecracker.overlay_size)
                        == engine_str_of(input@, "overlay_size"@)
                    &&& crate::podman_config::opt_str_view(&rt.firecracker.initrd_path)
                        == engine_str_of(input@, "initrd_path"@)
                    &&& Some(rt.firecracker.rootfs_image_path@) == engine_str_of(
                        input@,
                        "rootfs_image_path"@,
                    )
                    &&& Some(rt.firecracker.kernel_image_path@) == engine_str_of(
                        input@,
                        "kernel_image_path"@,
                    )
                    &&& rt.firecracker.mem_size_mib == engine_i64_of(input@, "mem_size_mib"@)
                    &&& rt.firecracker.vcpu_count == engine_i64_of(input@, "vcpu_count"@)
                    &&& rt.firecracker.boot_args.deep_view() == boot_args_of(input@)
                    &&& (match engine_str_of(input@, "cache_type"@) {
                        None => rt.firecracker.cache_type is None,
                        Some(s) => if s == "Unsafe"@ {
                            rt.firecracker.cache_type matches Some(CacheType::Unsafe)
                        } else {
                            rt.firecracker.cache_type matches Some(CacheType::Writeback)
                        },
                    })
                },
                None => true,
            })
            &&& c.includes.tar.deep_view() == tars_of(input@)
            &&& c.includes.path.deep_view() == paths_of(input@)
        },
{
    let merged = merge_config_text(input);
    let doc = match yaml_parse(merged.as_str()) {
        Some(doc) => doc,
        None => {
            return Err(schema_error("the text is not valid YAML"));
        },
    };
    let vm = match yaml_get(&doc, "vm") {
        Some(v) => v,
        None => {
            return Err(schema_error("a vm section is required"));
        },
    };
    let name = match read_string(vm, "name") {
        Some(n) => n,
        None => {
            return Err(schema_error("vm: a name is required"));
        },
    };
    if name.as_str().unicode_len() == 0 {
        return Err(schema_error("vm: the name is empty"));
    }
    let host_app_path = match read_string(vm, "host_app_path") {
        Some(p) => p,
        None => {
            return Err(schema_error("vm: a host_app_path is required"));
        },
    };
    let target_app_path = read_string(vm, "target_app_path");
    let target_is_entrypoint: bool;
    match &target_app_path {
        Some(t) => {
            let tc = chars_of(t.as_str());
            if tc.len() == 0 || tc[0] != '/' {
                return Err(schema_error("vm: target_app_path must be absolute"));
            }
            target_is_entrypoint = tc.len() == 1;
            proof {
                reveal_strlit("/");
                assert("/"@.len() == 1);
                if target_is_entrypoint {
                    assert(t@ =~= "/"@);
                } else {
                    assert(t@.len() != "/"@.len());
                }
                assert(target_valid(input@));
                assert(target_is_entrypoint == target_is_entry(input@));
            }
        },
        None => {
            target_is_entrypoint = false;
        },
    }
    let runtime = match yaml_get(vm, "runtime") {
        Some(rt) => {
            let engine = match yaml_get(rt, "firecracker") {
                Some(fc) => fc,
                None => {
                    return Err(schema_error("runtime: a firecracker section is required"));
                },
            };
            let rootfs_image_path = match read_string(engine, "rootfs_image_path") {
                Some(p) => p,
                None => {
                    return Err(schema_error("firecracker: a rootfs_image_path is required"));
                },
            };
            let kernel_image_path = match read_string(engine, "kernel_image_path") {
                Some(p) => p,
                None => {
                    return Err(schema_error("firecracker: a kernel_image_path is required"));
                },
            };
            let boot_args = match read_string_list(engine, "boot_args") {
                Some(b) => b,
                None => Vec::new(),
            };
            let cache_type = match read_string(engine, "cache_type") {
                Some(c) => {
                    if crate::lookup::string_eq_str(&c, "Unsafe") {
                        Some(CacheType::Unsafe)
                    } else {
                        Some(CacheType::Writeback)
                    }
                },
                None => None,
            };
            Some(
                RuntimeSection {
                    runas: match read_string(rt, "runas") {
                        Some(n) => n,
                        None => String::new(),
                    },
                    resume: read_bool(rt, "resume", false),
                    force_vsock: read_bool(rt, "force_vsock", false),
                    firecracker: EngineSection {
                        overlay_size: read_string(engine, "overlay_size"),
                        cache_type,
                        mem_size_mib: read_i64(engine, "mem_size_mib"),
                        vcpu_count: read_i64(engine, "vcpu_count"),
                        rootfs_image_path,
                        kernel_image_path,
                        initrd_path: read_string(engine, "initrd_path"),
                        boot_args,
                    },
                },
            )
        },
        None => None,
    };
    let resume = match &runtime {
        Some(rt) => rt.resume,
        None => false,
    };
    proof {
        assert(resume == resume_configured(input@));
    }
    if resume && target_is_entrypoint {
        return Err(FlakeError::UnknownCommand);
    }
    let includes = match yaml_get(&doc, "include") {
        Some(inc) => IncludeSection {
            tar: read_string_list(inc, "tar"),
            path: read_string_list(inc, "path"),
        },
        None => {
            return Err(schema_error("an includes section is required"));
        },
    };
    Ok(Config { vm: VMSection { name, target_app_path, host_app_path, runtime }, includes })
}

/// A strict-schema refusal, with what was wrong.
fn schema_error(message: &str) -> (r: FlakeError)
    ensures
        r matches FlakeError::IOError { .. },
{
    FlakeError::IOError {
        kind: "invalid flake configuration".to_owned(),
        message: message.to_owned(),
    }
}

/// The per-program configuration file: `<flakes_dir>/<program>.yaml`.
pub fn config_file(program: &str) -> (r: String)
    ensures
        r@ == defaults::FLAKES_DIR@ + "/"@ + program@ + ".yaml"@,
{
    crate::podman_config::config_file(program)
}

/// The per-program fragment directory: `<flakes_dir>/<program>.d`.
pub fn config_dir(program: &str) -> (r: String)
    ensures
        r@ == defaults::FLAKES_DIR@ + "/"@ + program@ + ".d"@,
{
    crate::podman_config::config_dir(program)
}

} // verus!
