//! The container pilot's per-program configuration and its schema.
//!
//! A program's YAML text is first merged (last top-level key wins), then
//! read against the strict schema below; the validity rules of the data
//! model are enforced here, at configuration time.
use vstd::prelude::*;

use crate::defaults;
use crate::error::FlakeError;
use crate::text::{chars_of, chars_to_string};
use crate::user::User;
use crate::yamlmerge::merge_config_text;
use crate::yamlval::{
    bool_under, list_under, read_bool, read_string, read_string_list, str_under, yaml_get,
    yaml_get_of, yaml_parse, yaml_tree_of,
};

verus! {

/// A program's configuration: the container section and the includes.
pub struct Config {
    pub container: ContainerSection,
    pub includes: IncludeSection,
}

/// Tar archives and filesystem paths to overlay into the instance at
/// provisioning time.
pub struct IncludeSection {
    pub tar: Option<Vec<String>>,
    pub path: Option<Vec<String>>,
}

/// The container registration: image name, target command, optional
/// delta-container base and layers, and runtime parameters.
pub struct ContainerSection {
    /// Name of the container in the local registry.
    pub name: String,
    /// Path of the program to call inside of the container; `/` selects
    /// the image's configured entrypoint.
    pub target_app_path: Option<String>,
    /// Path of the program registered on the host.
    pub host_app_path: String,
    /// Optional base container; the named container is then an overlay
    /// over this base.
    pub base_container: Option<String>,
    /// Optional additional layers on top of the base container.
    pub layers: Option<Vec<String>>,
    /// Whether missing host files are resolved into the instance.
    pub check_host_dependencies: bool,
    /// Optional runtime parameters.
    pub runtime: Option<RuntimeSection>,
}

/// Runtime parameters of the container engine.
pub struct RuntimeSection {
    /// The identity the engine runs as.
    pub runas: User,
    /// Keep the instance alive and exec subsequent calls inside it.
    pub resume: bool,
    /// Attach to a running interactive instance instead of exec.
    pub attach: bool,
    /// Pass-through arguments for the engine.
    pub podman: Option<Vec<String>>,
}

impl Config {
    /// The validity rules of the data model: a non-empty image name, a
    /// target path that is `/` or absolute, and no resume together with
    /// an entrypoint-only target.
    pub open spec fn wf(&self) -> bool {
        &&& self.container.name@.len() > 0
        &&& match self.container.target_app_path {
            Some(t) => t@.len() > 0 && t@[0] == '/',
            None => true,
        }
        &&& !(self.spec_resume() && self.spec_target_is_entrypoint())
    }

    /// Whether resume mode is configured.
    pub open spec fn spec_resume(&self) -> bool {
        match self.container.runtime {
            Some(rt) => rt.resume,
            None => false,
        }
    }

    /// Whether the configured target is the image entrypoint (`/`).
    pub open spec fn spec_target_is_entrypoint(&self) -> bool {
        match self.container.target_app_path {
            Some(t) => t@ == "/"@,
            None => false,
        }
    }

    /// Whether this is a delta container: a base container is named.
    pub fn is_delta_container(&self) -> (r: bool)
        ensures
            r == (self.container.base_container is Some),
    {
        self.container.base_container.is_some()
    }

    /// The runtime section, or the default one when none is configured.
    pub fn runtime(&self) -> (r: RuntimeSection)
        ensures
            match self.container.runtime {
                Some(rt) => {
                    &&& r.resume == rt.resume
                    &&& r.attach == rt.attach
                    &&& r.runas.name.deep_view() == rt.runas.name.deep_view()
                    &&& r.podman.deep_view() == rt.podman.deep_view()
                },
                None => {
                    &&& r.resume == false
                    &&& r.attach == false
                    &&& r.runas.name is None
                    &&& r.podman is None
                },
            },
    {
        match &self.container.runtime {
            Some(rt) => RuntimeSection {
                runas: clone_user(&rt.runas),
                resume: rt.resume,
                attach: rt.attach,
                podman: clone_opt_vec(&rt.podman),
            },
            None => RuntimeSection { runas: User::none(), resume: false, attach: false, podman: None },
        }
    }

    /// The configured layer list, empty when none was given.
    pub fn layers(&self) -> (r: Vec<String>)
        ensures
            r.deep_view() == opt_list_view(&self.container.layers),
    {
        clone_opt_list(&self.container.layers)
    }

    /// The configured tar includes, empty when none were given.
    pub fn tars(&self) -> (r: Vec<String>)
        ensures
            r.deep_view() == opt_list_view(&self.includes.tar),
    {
        clone_opt_list(&self.includes.tar)
    }

    /// The configured path includes, empty when none were given.
    pub fn paths(&self) -> (r: Vec<String>)
        ensures
            r.deep_view() == opt_list_view(&self.includes.path),
    {
        clone_opt_list(&self.includes.path)
    }
}

/// The items of an optional list, the empty sequence when absent.
pub open spec fn opt_list_view(v: &Option<Vec<String>>) -> Seq<Seq<char>> {
    match v {
        Some(l) => l.deep_view(),
        None => Seq::empty(),
    }
}

/// Copy a user, preserving the name.
pub fn clone_user(u: &User) -> (r: User)
    ensures
        r.name.deep_view() == u.name.deep_view(),
{
    match &u.name {
        Some(n) => User { name: Some(n.as_str().to_owned()) },
        None => User { name: None },
    }
}

/// Copy an optional string list, preserving the views.
pub fn clone_opt_vec(v: &Option<Vec<String>>) -> (r: Option<Vec<String>>)
    ensures
        r.deep_view() == v.deep_view(),
{
    match v {
        Some(l) => {
            let c = crate::command::clone_string_vec(l);
            proof {
                assert(Some(c).deep_view() =~~= v.deep_view());
            }
            Some(c)
        },
        None => None,
    }
}

/// An optional string list as a vector, empty when absent.
pub fn clone_opt_list(v: &Option<Vec<String>>) -> (r: Vec<String>)
    ensures
        r.deep_view() == opt_list_view(v),
{
    match v {
        Some(l) => crate::command::clone_string_vec(l),
        None => Vec::new(),
    }
}


/// The characters of an optional string.
pub open spec fn opt_str_view(o: &Option<String>) -> Option<Seq<char>> {
    match o {
        Some(s) => Some(s@),
        None => None,
    }
}

/// The value tree of the merged document.
pub open spec fn doc_of(input: Seq<char>) -> Option<serde_yaml::Value> {
    yaml_tree_of(crate::yamlmerge::merged_config(input))
}

/// The container section of the merged document.
pub open spec fn container_node(input: Seq<char>) -> Option<serde_yaml::Value> {
    match doc_of(input) {
        Some(d) => yaml_get_of(d, "container"@),
        None => None,
    }
}

/// The configured image name.
pub open spec fn name_of(input: Seq<char>) -> Option<Seq<char>> {
    match container_node(input) {
        Some(c) => str_under(c, "name"@),
        None => None,
    }
}

/// The configured host application path.
pub open spec fn host_app_path_of(input: Seq<char>) -> Option<Seq<char>> {
    match container_node(input) {
        Some(c) => str_under(c, "host_app_path"@),
        None => None,
    }
}

/// The configured target application path.
pub open spec fn target_of(input: Seq<char>) -> Option<Seq<char>> {
    match container_node(input) {
        Some(c) => str_under(c, "target_app_path"@),
        None => None,
    }
}

/// The configured base container.
pub open spec fn base_container_of(input: Seq<char>) -> Option<Seq<char>> {
    match container_node(input) {
        Some(c) => str_under(c, "base_container"@),
        None => None,
    }
}

/// The configured layer list.
pub open spec fn layers_of(input: Seq<char>) -> Option<Seq<Seq<char>>> {
    match container_node(input) {
        Some(c) => list_under(c, "layers"@),
        None => None,
    }
}

/// Whether host dependencies are checked.
pub open spec fn check_host_dependencies_of(input: Seq<char>) -> bool {
    match container_node(input) {
        Some(c) => bool_under(c, "check_host_dependencies"@, false),
        None => false,
    }
}

/// The runtime section of the merged document.
pub open spec fn runtime_node(input: Seq<char>) -> Option<serde_yaml::Value> {
    match container_node(input) {
        Some(c) => yaml_get_of(c, "runtime"@),
        None => None,
    }
}

/// The configured runas name.
pub open spec fn runas_of(input: Seq<char>) -> Option<Seq<char>> {
    match runtime_node(input) {
        Some(rt) => str_under(rt, "runas"@),
        None => None,
    }
}

/// Whether resume mode is configured in the document.
pub open spec fn resume_configured(input: Seq<char>) -> bool {
    match runtime_node(input) {
        Some(rt) => bool_under(rt, "resume"@, false),
        None => false,
    }
}

/// Whether attach mode is configured in the document.
pub open spec fn attach_configured(input: Seq<char>) -> bool {
    match runtime_node(input) {
        Some(rt) => bool_under(rt, "attach"@, false),
        None => false,
    }
}

/// The configured engine pass-through options.
pub open spec fn podman_opts_of(input: Seq<char>) -> Option<Seq<Seq<char>>> {
    match runtime_node(input) {
        Some(rt) => list_under(rt, "podman"@),
        None => None,
    }
}

/// The includes section of the merged document.
pub open spec fn includes_node(input: Seq<char>) -> Option<serde_yaml::Value> {
    match doc_of(input) {
        Some(d) => yaml_get_of(d, "include"@),
        None => None,
    }
}

/// The configured tar includes.
pub open spec fn tars_of(input: Seq<char>) -> Option<Seq<Seq<char>>> {
    match includes_node(input) {
        Some(inc) => list_under(inc, "tar"@),
        None => None,
    }
}

/// The configured path includes.
pub open spec fn paths_of(input: Seq<char>) -> Option<Seq<Seq<char>>> {
    match includes_node(input) {
        Some(inc) => list_under(inc, "path"@),
        None => None,
    }
}

/// Whether the configured target is valid: absent, or absolute.
pub open spec fn target_valid(input: Seq<char>) -> bool {
    match target_of(input) {
        Some(t) => t.len() > 0 && t[0] == '/',
        None => true,
    }
}

/// Whether the configured target is the image entrypoint.
pub open spec fn target_is_entry(input: Seq<char>) -> bool {
    target_of(input) == Some("/"@)
}

/// The schema conditions checked before the resume rule: the document
/// parses, a container section with a non-empty name and a host path
/// stands in it, and the target is absent or absolute.
pub open spec fn schema_pre_ok(input: Seq<char>) -> bool {
    &&& doc_of(input) is Some
    &&& container_node(input) is Some
    &&& (name_of(input) matches Some(n) && n.len() > 0)
    &&& host_app_path_of(input) is Some
    &&& target_valid(input)
}

/// Exactly when the reader succeeds: the schema conditions hold, resume
/// does not meet an entrypoint-only target, and an includes section
/// stands in the document.
pub open spec fn parse_ok(input: Seq<char>) -> bool {
    &&& schema_pre_ok(input)
    &&& !(resume_configured(input) && target_is_entry(input))
    &&& includes_node(input) is Some
}

/// Exactly when the reader refuses with `UnknownCommand`: a schema-valid
/// document configures resume together with the entrypoint-only target.
pub open spec fn refused_unknown_command(input: Seq<char>) -> bool {
    &&& schema_pre_ok(input)
    &&& resume_configured(input)
    &&& target_is_entry(input)
}

/// Read a program's configuration from its concatenated YAML text.
///
/// The text is merged so that the last occurrence of each top-level key
/// wins, then read against the strict schema.  The contract pins the
/// result exactly, over the names of the YAML reader's results: the
/// reader succeeds if and only if `parse_ok` holds of the input, every
/// field of the returned configuration equals what the merged document
/// configures, and `UnknownCommand` comes exactly when a schema-valid
/// document configures resume with the entrypoint-only target.
#[verifier::rlimit(100)]
pub fn config_from_str(input: &str) -> (r: Result<Config, FlakeError>)
    ensures
        r is Ok <==> parse_ok(input@),
        (r matches Err(e) && e matches FlakeError::UnknownCommand) <==> refused_unknown_command(
            input@,
        ),
        r matches Err(e) ==> (e matches FlakeError::IOError { .. } || e
            matches FlakeError::UnknownCommand),
        r matches Ok(c) ==> {
            &&& c.wf()
            &&& Some(c.container.name@) == name_of(input@)
            &&& Some(c.container.host_app_path@) == host_app_path_of(input@)
            &&& opt_str_view(&c.container.target_app_path) == target_of(input@)
            &&& opt_str_view(&c.container.base_container) == base_container_of(input@)
            &&& c.container.layers.deep_view() == layers_of(input@)
            &&& c.container.check_host_dependencies == check_host_dependencies_of(input@)
            &&& (c.container.runtime is Some <==> runtime_node(input@) is Some)
            &&& (match c.container.runtime {
                Some(rt) => {
                    &&& crate::user::name_view(&rt.runas.name) == runas_of(input@)
                    &&& rt.resume == resume_configured(input@)
                    &&& rt.attach == attach_configured(input@)
                    &&& rt.podman.deep_view() == podman_opts_of(input@)
                },
                None => true,
            })
            &&& c.includes.tar.deep_view() == tars_of(input@)
            &&& c.includes.path.deep_view() == paths_of(input@)
        },
{
    let merged = merge_config_text(input);
    let doc = match yaml_parse(merged.as_str()) {
        Some(doc) => doc,
        None => {
            return Err(schema_error("the text is not valid YAML"));
        },
    };
    let container = match yaml_get(&doc, "container") {
        Some(c) => c,
        None => {
            return Err(schema_error("a container section is required"));
        },
    };
    let name = match read_string(container, "name") {
        Some(n) => n,
        None => {
            return Err(schema_error("container: a name is required"));
        },
    };
    if name.as_str().unicode_len() == 0 {
        return Err(schema_error("container: the name is empty"));
    }
    let host_app_path = match read_string(container, "host_app_path") {
        Some(p) => p,
        None => {
            return Err(schema_error("container: a host_app_path is required"));
        },
    };
    let target_app_path = read_string(container, "target_app_path");
    let target_is_entrypoint: bool;
    match &target_app_path {
        Some(t) => {
            let tc = chars_of(t.as_str());
            if tc.len() == 0 || tc[0] != '/' {
                return Err(schema_error("container: target_app_path must be absolute"));
            }
            target_is_entrypoint = tc.len() == 1;
            proof {
                reveal_strlit("/");
                assert("/"@.len() == 1);
                if target_is_entrypoint {
                    assert(t@ =~= "/"@);
                } else {
                    assert(t@.len() != "/"@.len());
                }
                assert(target_valid(input@));
                assert(target_is_entrypoint == target_is_entry(input@));
            }
        },
        None => {
            target_is_entrypoint = false;
        },
    }
    let base_container = read_string(container, "base_container");
    let layers = read_string_list(container, "layers");
    let check_host_dependencies = read_bool(container, "check_host_dependencies", false);
    let runtime = match yaml_get(container, "runtime") {
        Some(rt) => {
            let runas = match read_string(rt, "runas") {
                Some(n) => User { name: Some(n) },
                None => User { name: None },
            };
            Some(
                RuntimeSection {
                    runas,
                    resume: read_bool(rt, "resume", false),
                    attach: read_bool(rt, "attach", false),
                    podman: read_string_list(rt, "podman"),
                },
            )
        },
        None => None,
    };
    let resume = match &runtime {
        Some(rt) => rt.resume,
        None => false,
    };
    proof {
        assert(resume == resume_configured(input@));
    }
    if resume && target_is_entrypoint {
        return Err(FlakeError::UnknownCommand);
    }
    let includes = match yaml_get(&doc, "include") {
        Some(inc) => IncludeSection {
            tar: read_string_list(inc, "tar"),
            path: read_string_list(inc, "path"),
        },
        None => {
            return Err(schema_error("an includes section is required"));
        },
    };
    let config = Config {
        container: ContainerSection {
            name,
            target_app_path,
            host_app_path,
            base_container,
            layers,
            check_host_dependencies,
            runtime,
        },
        includes,
    };
    Ok(config)
}

/// A strict-schema refusal, with what was wrong.
fn schema_error(message: &str) -> (r: FlakeError)
    ensures
        r matches FlakeError::IOError { .. },
{
    FlakeError::IOError {
        kind: "invalid flake configuration".to_owned(),
        message: message.to_owned(),
    }
}

/// The per-program configuration file below a resolved flakes directory:
/// `<flakes_dir>/<program>.yaml`.
pub fn config_file_in(flakes_dir: &str, program: &str) -> (r: String)
    ensures
        r@ == flakes_dir@ + "/"@ + program@ + ".yaml"@,
{
    path_with_extension(flakes_dir, program, ".yaml")
}

/// The per-program fragment directory below a resolved flakes directory:
/// `<flakes_dir>/<program>.d`.
pub fn config_dir_in(flakes_dir: &str, program: &str) -> (r: String)
    ensures
        r@ == flakes_dir@ + "/"@ + program@ + ".d"@,
{
    path_with_extension(flakes_dir, program, ".d")
}

/// The per-program configuration file below the system-default flakes
/// directory; an invocation with a configured directory resolves it
/// through the registry and uses `config_file_in`.
pub fn config_file(program: &str) -> (r: String)
    ensures
        r@ == defaults::FLAKES_DIR@ + "/"@ + program@ + ".yaml"@,
{
    config_file_in(defaults::FLAKES_DIR, program)
}

/// The per-program fragment directory below the system-default flakes
/// directory.
pub fn config_dir(program: &str) -> (r: String)
    ensures
        r@ == defaults::FLAKES_DIR@ + "/"@ + program@ + ".d"@,
{
    config_dir_in(defaults::FLAKES_DIR, program)
}

/// `<flakes_dir>/<program><suffix>`.
fn path_with_extension(flakes_dir: &str, program: &str, suffix: &str) -> (r: String)
    ensures
        r@ == flakes_dir@ + "/"@ + program@ + suffix@,
{
    let mut s = flakes_dir.to_owned();
    s.append("/");
    s.append(program);
    s.append(suffix);
    s
}

/// The base name of a path: what follows the last `/`, the whole path
/// when it has none.
pub fn basename(program_path: &String) -> (r: String)
    ensures
        r@ == basename_spec(program_path@),
{
    let v = chars_of(program_path.as_str());
    match crate::text::rindex_of_char(&v, '/') {
        Some(i) => {
            proof {
                crate::text::lemma_rfind_char_some(program_path@, '/');
            }
            let n = v.len();
            let tail = crate::text::subrange_chars(&v, i + 1, n);
            chars_to_string(&tail)
        },
        None => {
            let c = crate::text::subrange_chars(&v, 0, v.len());
            proof {
                assert(c@ =~= program_path@);
            }
            chars_to_string(&c)
        },
    }
}

/// The text after the last `/`.
pub open spec fn basename_spec(p: Seq<char>) -> Seq<char> {
    match crate::text::rfind_char(p, '/') {
        Some(i) => if 0 <= i < p.len() {
            p.subrange(i + 1, p.len() as int)
        } else {
            p
        },
        None => p,
    }
}

} // verus!
