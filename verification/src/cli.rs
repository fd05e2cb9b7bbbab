//! The decisions of the command-line front end: turning the arguments of
//! `forge generate` into a generation request, classifying error messages,
//! and the glyphs of the file tree.
use vstd::prelude::*;
use crate::artifact::{
    is_invalid_name_error, kind_named, known_names, name_rejection, template_name_of, ArtifactKind,
    ArtifactName, GenerationRequest,
};
use crate::suggest::{is_closest, levenshtein};
use crate::config::{resolve_config, CliOverrides, ConfigError, ForgeJsonFile, ResolvedConfig};
use crate::error::ForgeError;
use crate::suggest::closest_match;
use crate::text::{chars_of, contains, has_substring, lowercase_of, to_lowercase};

verus! {

/// The arguments of `forge generate`.
#[derive(Debug, Clone)]
pub struct GenerateArgs {
    /// The artifact type to generate (e.g. module, service)
    pub artifact: String,
    /// The name of the artifact (e.g. product, auth)
    pub name: String,
    /// Place files directly in the output path instead of a subdirectory
    pub flat: Option<bool>,
    /// Preview what will be generated without writing any files
    pub dry_run: bool,
    /// Output path relative to the project root, overriding the configured one
    pub path: Option<String>,
    /// Whether to generate a spec (test) file alongside the artifact
    pub spec: Option<bool>,
}

/// Why a `generate` invocation could not be turned into a request.
#[derive(Debug, Clone)]
pub enum RequestError {
    /// The artifact type is unknown; the closest known name, if any is close.
    UnknownArtifact { input: String, suggestion: Option<String> },
    /// The artifact name is not valid.
    InvalidName(ForgeError),
    /// The configuration could not be resolved.
    Config(ConfigError),
}

impl GenerateArgs {
    /// The overrides that the command line gives: `--spec`, `--flat`, and
    /// `--path` as the source root.
    pub open spec fn overrides_spec(&self) -> CliOverrides {
        CliOverrides { generate_spec: self.spec, flat: self.flat, source_root: self.path }
    }
}

/// What the arguments of `forge generate` name: the artifact type (by name
/// or alias, in any case) and the validated artifact name, checked in that
/// order.
pub fn resolve_target(args: &GenerateArgs) -> (res: Result<(ArtifactKind, ArtifactName), RequestError>)
    ensures
        kind_named(lowercase_of(args.artifact@)) is None ==> (res matches Err(
            RequestError::UnknownArtifact { input, suggestion },
        ) && input@ == args.artifact@ && is_suggestion_for(args.artifact@, suggestion)),
        kind_named(lowercase_of(args.artifact@)) is Some && name_rejection(args.name@) is Some
            ==> (res matches Err(RequestError::InvalidName(e)) && is_invalid_name_error(
            e,
            args.name@,
            name_rejection(args.name@)->0,
        )),
        kind_named(lowercase_of(args.artifact@)) is Some && name_rejection(args.name@) is None
            ==> (res matches Ok((kind, name)) && Some(kind) == kind_named(
            lowercase_of(args.artifact@),
        ) && name.derived_from(args.name@)),
{
    let kind = match ArtifactKind::from_str(args.artifact.as_str()) {
        Some(k) => k,
        None => {
            let names = ArtifactKind::all_names();
            let found = closest_match(args.artifact.as_str(), names);
            let suggestion = match found {
                Some(s) => Some(s.to_owned()),
                None => None,
            };
            proof {
                let ds = known_names().map_values(|n: Seq<char>| levenshtein(lowercase_of(args.artifact@), n) as int);
                assert(crate::suggest::distances_to(lowercase_of(args.artifact@), names@) =~= ds);
                match found {
                    Some(s) => {
                        let i = choose|i: int| is_closest(crate::suggest::distances_to(lowercase_of(args.artifact@), names@), i) && s == #[trigger] names@[i];
                        assert(names@[i]@ == known_names()[i]);
                    },
                    None => {
                        assert forall|j: int| 0 <= j < known_names().len() implies #[trigger] ds[j] > 3 by {
                            assert(names@[j]@ == known_names()[j]);
                        }
                    },
                }
            }
            return Err(RequestError::UnknownArtifact { input: args.artifact.clone(), suggestion });
        },
    };
    match ArtifactName::parse(args.name.as_str()) {
        Ok(name) => Ok((kind, name)),
        Err(e) => Err(RequestError::InvalidName(e)),
    }
}

/// Builds the request for an artifact already resolved, merging the
/// configuration layers. The output path is `--path` taken relative to the
/// project root (an absolute one as it is), else the
/// configured path of the kind; flat and spec generation come from the
/// merged configuration.
pub fn build_request(
    args: &GenerateArgs,
    kind: ArtifactKind,
    name: ArtifactName,
    project_root: &str,
    file_config: Option<&ForgeJsonFile>,
) -> (res: Result<GenerationRequest, RequestError>)
    ensures
        res is Ok <==> config_accepted(file_config),
        res is Err ==> res matches Err(RequestError::Config(_)),
        res matches Ok(req) ==> {
            &&& req.kind == kind
            &&& req.name == name
            &&& req.dry_run == args.dry_run
            &&& exists|config: ResolvedConfig| {
                &&& resolve_config_ok(project_root@, file_config, args.overrides_spec(), config)
                &&& req.flat == config.flat
                &&& req.generate_spec == config.generate_spec
                &&& req.output_path@ == match args.path {
                    Some(p) => crate::paths::joined_path(project_root@, p@),
                    None => config.output_path_spec(template_name_of(req.kind)),
                }
            }
        },
{
    let overrides = CliOverrides {
        generate_spec: args.spec,
        flat: args.flat,
        source_root: args.path.clone(),
    };
    let config = match resolve_config(project_root, file_config, &overrides) {
        Ok(c) => c,
        Err(e) => {
            return Err(RequestError::Config(e));
        },
    };
    let output_path = match &args.path {
        Some(p) => crate::paths::join_path(project_root, p.as_str()),
        None => config.output_path_for(kind.template_name()).clone(),
    };
    assert(resolve_config_ok(project_root@, file_config, args.overrides_spec(), config));
    Ok(GenerationRequest {
        kind,
        name,
        output_path,
        flat: config.flat,
        dry_run: args.dry_run,
        generate_spec: config.generate_spec,
    })
}

/// Turns the arguments of `forge generate` into a request: the artifact type
/// (by name or alias, in any case) first, then the name, then the merged
/// configuration. The output path is `--path` taken relative to the project
/// root (an absolute one as it is), else the configured
/// path of the kind; flat and spec generation come from the configuration.
pub fn prepare_request(
    args: &GenerateArgs,
    project_root: &str,
    file_config: Option<&ForgeJsonFile>,
) -> (res: Result<GenerationRequest, RequestError>)
    ensures
        kind_named(lowercase_of(args.artifact@)) is None ==> (res matches Err(
            RequestError::UnknownArtifact { input, suggestion },
        ) && input@ == args.artifact@ && is_suggestion_for(args.artifact@, suggestion)),
        kind_named(lowercase_of(args.artifact@)) is Some && name_rejection(args.name@) is Some
            ==> (res matches Err(RequestError::InvalidName(e)) && is_invalid_name_error(
            e,
            args.name@,
            name_rejection(args.name@)->0,
        )),
        kind_named(lowercase_of(args.artifact@)) is Some && name_rejection(args.name@) is None
            ==> (res is Ok <==> config_accepted(file_config)),
        res matches Err(RequestError::Config(_)) ==> !config_accepted(file_config),
        res matches Ok(req) ==> {
            &&& Some(req.kind) == kind_named(lowercase_of(args.artifact@))
            &&& req.name.derived_from(args.name@)
            &&& req.dry_run == args.dry_run
            &&& exists|config: ResolvedConfig| {
                &&& resolve_config_ok(project_root@, file_config, args.overrides_spec(), config)
                &&& req.flat == config.flat
                &&& req.generate_spec == config.generate_spec
                &&& req.output_path@ == match args.path {
                    Some(p) => crate::paths::joined_path(project_root@, p@),
                    None => config.output_path_spec(template_name_of(req.kind)),
                }
            }
        },
{
    let (kind, name) = match resolve_target(args) {
        Ok(target) => target,
        Err(e) => {
            return Err(e);
        },
    };
    build_request(args, kind, name, project_root, file_config)
}

/// The file's language is supported and none of its path overrides leaves
/// the project root, so the configuration resolves.
pub open spec fn config_accepted(file_config: Option<&ForgeJsonFile>) -> bool {
    let file = match file_config {
        Some(f) => Some(*f),
        None => None,
    };
    &&& crate::config::is_supported_language(crate::config::chosen_language(file))
    &&& crate::config::first_escaping(crate::config::file_path_entries(file)) is None
}

/// `suggestion` is what `closest_match` proposes for `input` among the known
/// names: the first one at the smallest edit distance, if that is at most 3.
pub open spec fn is_suggestion_for(input: Seq<char>, suggestion: Option<String>) -> bool {
    let ds = known_names().map_values(|n: Seq<char>| levenshtein(lowercase_of(input), n) as int);
    match suggestion {
        Some(s) => exists|i: int| is_closest(ds, i) && s@ == #[trigger] known_names()[i],
        None => forall|j: int| 0 <= j < known_names().len() ==> #[trigger] ds[j] > 3,
    }
}

/// `config` is what `resolve_config` gives for these inputs.
pub open spec fn resolve_config_ok(
    project_root: Seq<char>,
    file_config: Option<&ForgeJsonFile>,
    overrides: CliOverrides,
    config: ResolvedConfig,
) -> bool {
    let file = match file_config {
        Some(f) => Some(*f),
        None => None,
    };
    &&& crate::config::is_supported_language(crate::config::chosen_language(file))
    &&& crate::config::first_escaping(crate::config::file_path_entries(file)) is None
    &&& config.project_root@ == project_root
    &&& config.source_root@ == crate::paths::joined_path(
        project_root,
        crate::config::chosen_source_root(file, overrides),
    )
    &&& config.language@ == crate::config::chosen_language(file)
    &&& config.generate_spec == crate::config::chosen_generate_spec(file, overrides)
    &&& config.flat == crate::config::chosen_flat(file, overrides)
    &&& crate::config::pair_views(config.paths@) == crate::config::rooted_entries(
        project_root,
        crate::config::file_path_entries(file),
    )
}

// ---------------------------------------------------------------------------
// Error messages
// ---------------------------------------------------------------------------

/// How an error is presented.
#[derive(Debug, Clone, Copy, PartialEq, Eq, Structural)]
pub enum ErrorKind {
    UserInput,
    Filesystem,
    Config,
    Internal,
}

/// The kind of an error, from words in its (lower-cased) message.
pub open spec fn error_kind_of(msg: Seq<char>) -> ErrorKind {
    if has_substring(msg, "invalid name"@) || has_substring(msg, "unknown artifact"@)
        || has_substring(msg, "did you mean"@) || has_substring(msg, "spaces"@)
        || has_substring(msg, "letter"@) {
        ErrorKind::UserInput
    } else if has_substring(msg, "io error"@) || has_substring(msg, "failed to create"@)
        || has_substring(msg, "failed to write"@) || has_substring(msg, "no such file"@)
        || has_substring(msg, "permission"@) {
        ErrorKind::Filesystem
    } else if has_substring(msg, "config"@) || has_substring(msg, "forge.json"@)
        || has_substring(msg, "invalid json"@) {
        ErrorKind::Config
    } else {
        ErrorKind::Internal
    }
}

/// The hint shown under an error, from words in its (lower-cased) message.
pub open spec fn hint_of(msg: Seq<char>) -> Option<Seq<char>> {
    if has_substring(msg, "unknown artifact"@) {
        Some("Run `forge generate --help` to see all supported artifact types."@)
    } else if has_substring(msg, "spaces"@) {
        Some("Use hyphens to separate words: e.g. `user-profile`, not `user profile`."@)
    } else if has_substring(msg, "already exists"@) {
        Some("Use `--force` to overwrite existing files."@)
    } else if has_substring(msg, "permission denied"@) {
        Some("Check file permissions in the output directory."@)
    } else if has_substring(msg, "forge.json"@) && has_substring(msg, "invalid"@) {
        Some("Run `forge init` to generate a valid forge.json template."@)
    } else if has_substring(msg, "template"@) && has_substring(msg, "not found"@) {
        Some("This may be a bug — please report it at https://github.com/you/forge/issues"@)
    } else {
        None
    }
}

/// Whether `word` occurs in `text`.
fn mentions(text: &[char], word: &str) -> (res: bool)
    ensures
        res == has_substring(text@, word@),
{
    let w = chars_of(word);
    contains(text, w.as_slice())
}

/// Classifies an error message, ignoring letter case.
pub fn classify_error(message: &str) -> (res: ErrorKind)
    ensures
        res == error_kind_of(lowercase_of(message@)),
{
    let lower = to_lowercase(message);
    let msg = chars_of(lower.as_str());
    let m = msg.as_slice();
    if mentions(m, "invalid name") || mentions(m, "unknown artifact") || mentions(m, "did you mean")
        || mentions(m, "spaces") || mentions(m, "letter") {
        return ErrorKind::UserInput;
    }
    if mentions(m, "io error") || mentions(m, "failed to create") || mentions(m, "failed to write")
        || mentions(m, "no such file") || mentions(m, "permission") {
        return ErrorKind::Filesystem;
    }
    if mentions(m, "config") || mentions(m, "forge.json") || mentions(m, "invalid json") {
        return ErrorKind::Config;
    }
    ErrorKind::Internal
}

/// The hint for an error message, ignoring letter case.
pub fn extract_hint(message: &str) -> (res: Option<&'static str>)
    ensures
        match hint_of(lowercase_of(message@)) {
            Some(h) => res matches Some(r) && r@ == h,
            None => res is None,
        },
{
    let lower = to_lowercase(message);
    let msg = chars_of(lower.as_str());
    let m = msg.as_slice();
    if mentions(m, "unknown artifact") {
        return Some("Run `forge generate --help` to see all supported artifact types.");
    }
    if mentions(m, "spaces") {
        return Some("Use hyphens to separate words: e.g. `user-profile`, not `user profile`.");
    }
    if mentions(m, "already exists") {
        return Some("Use `--force` to overwrite existing files.");
    }
    if mentions(m, "permission denied") {
        return Some("Check file permissions in the output directory.");
    }
    if mentions(m, "forge.json") && mentions(m, "invalid") {
        return Some("Run `forge init` to generate a valid forge.json template.");
    }
    if mentions(m, "template") && mentions(m, "not found") {
        return Some("This may be a bug — please report it at https://github.com/you/forge/issues");
    }
    None
}

} // verus!
