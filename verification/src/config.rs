//! Project configuration: the contents of `forge.json`, command-line
//! overrides, and their merge into one resolved configuration.
use vstd::prelude::*;
use crate::paths::{joined_path, join_path};
use crate::text::{chars_of, concat, has_prefix, same_text, starts_with};

verus! {

/// Default values for the forge configuration.
pub struct ConfigDefaults;

impl ConfigDefaults {
    pub fn source_root() -> (res: &'static str)
        ensures
            res@ == "src"@,
    {
        "src"
    }

    pub fn language() -> (res: &'static str)
        ensures
            res@ == "ts"@,
    {
        "ts"
    }

    pub fn generate_spec() -> (res: bool)
        ensures
            res,
    {
        true
    }

    pub fn flat() -> (res: bool)
        ensures
            !res,
    {
        false
    }
}

/// The contents of a `forge.json` file; every field may be absent. Path
/// overrides map an artifact kind to a path relative to the project root.
/// As read from JSON (an object) each kind occurs at most once; a list built
/// otherwise may repeat one, and then the last entry counts.
#[derive(Debug, Clone)]
pub struct ForgeJsonFile {
    pub source_root: Option<String>,
    pub language: Option<String>,
    pub generate_spec: Option<bool>,
    pub flat: Option<bool>,
    pub paths: Option<Vec<(String, String)>>,
}

impl Default for ForgeJsonFile {
    fn default() -> (res: Self)
        ensures
            res.source_root is None,
            res.language is None,
            res.generate_spec is None,
            res.flat is None,
            res.paths is None,
    {
        ForgeJsonFile { source_root: None, language: None, generate_spec: None, flat: None, paths: None }
    }
}

/// Options given on the command line, which take precedence over the file.
#[derive(Debug, Clone)]
pub struct CliOverrides {
    pub generate_spec: Option<bool>,
    pub flat: Option<bool>,
    pub source_root: Option<String>,
}

impl Default for CliOverrides {
    fn default() -> (res: Self)
        ensures
            res.generate_spec is None,
            res.flat is None,
            res.source_root is None,
    {
        CliOverrides { generate_spec: None, flat: None, source_root: None }
    }
}

/// A fully resolved configuration; all paths are joined to the project root.
/// `paths` keeps the order and the entries of the file's overrides, so a kind
/// repeats only where the file repeats it, and the last entry counts.
#[derive(Debug, Clone)]
pub struct ResolvedConfig {
    pub project_root: String,
    pub source_root: String,
    pub language: String,
    pub generate_spec: bool,
    pub flat: bool,
    pub paths: Vec<(String, String)>,
}

/// The text of each entry of a list of path pairs.
pub open spec fn pair_views(v: Seq<(String, String)>) -> Seq<(Seq<char>, Seq<char>)> {
    v.map_values(|e: (String, String)| (e.0@, e.1@))
}

/// The value of the last entry whose key is `key`, if there is one.
pub open spec fn last_value_for(entries: Seq<(Seq<char>, Seq<char>)>, key: Seq<char>) -> Option<Seq<char>>
    decreases entries.len(),
{
    if entries.len() == 0 {
        None
    } else if entries.last().0 == key {
        Some(entries.last().1)
    } else {
        last_value_for(entries.drop_last(), key)
    }
}

impl ResolvedConfig {
    /// The output directory of an artifact kind: its path override, or the
    /// source root when there is none.
    pub open spec fn output_path_spec(&self, artifact_kind: Seq<char>) -> Seq<char> {
        match last_value_for(pair_views(self.paths@), artifact_kind) {
            Some(p) => p,
            None => self.source_root@,
        }
    }

    /// The output directory of an artifact kind: its path override, or the
    /// source root when there is none.
    pub fn output_path_for(&self, artifact_kind: &str) -> (res: &String)
        ensures
            res@ == self.output_path_spec(artifact_kind@),
    {
        let mut i = self.paths.len();
        let ghost entries = pair_views(self.paths@);
        assert(entries.subrange(0, entries.len() as int) =~= entries);
        while i > 0
            invariant
                i <= self.paths@.len(),
                entries == pair_views(self.paths@),
                last_value_for(entries, artifact_kind@) == last_value_for(
                    entries.subrange(0, i as int),
                    artifact_kind@,
                ),
            decreases i,
        {
            let ghost sub = entries.subrange(0, i as int);
            assert(sub.last() == entries[i - 1]);
            assert(sub.drop_last() =~= entries.subrange(0, i - 1));
            if same_text(self.paths[i - 1].0.as_str(), artifact_kind) {
                return &self.paths[i - 1].1;
            }
            i = i - 1;
        }
        assert(entries.subrange(0, 0) =~= Seq::<(Seq<char>, Seq<char>)>::empty());
        &self.source_root
    }
}

/// Why a configuration was refused or could not be read.
#[derive(Debug, Clone)]
pub enum ConfigError {
    ReadFailed { path: String, reason: String },
    InvalidJson { reason: String },
    InvalidField { field: String, reason: String },
}

pub type ConfigResult<T> = Result<T, ConfigError>;

impl ConfigError {
    pub open spec fn message_spec(&self) -> Seq<char> {
        match self {
            ConfigError::ReadFailed { path, reason } =>
                "Could not read config file at '"@ + path@ + "': "@ + reason@,
            ConfigError::InvalidJson { reason } => "forge.json is not valid JSON: "@ + reason@,
            ConfigError::InvalidField { field, reason } =>
                "forge.json field '"@ + field@ + "' has invalid value: "@ + reason@,
        }
    }

    /// The text shown to the user for this error.
    pub fn message(&self) -> (res: String)
        ensures
            res@ == self.message_spec(),
    {
        match self {
            ConfigError::ReadFailed { path, reason } => {
                let s = concat("Could not read config file at '", path.as_str());
                let s = concat(s.as_str(), "': ");
                concat(s.as_str(), reason.as_str())
            },
            ConfigError::InvalidJson { reason } => {
                concat("forge.json is not valid JSON: ", reason.as_str())
            },
            ConfigError::InvalidField { field, reason } => {
                let s = concat("forge.json field '", field.as_str());
                let s = concat(s.as_str(), "' has invalid value: ");
                concat(s.as_str(), reason.as_str())
            },
        }
    }

    /// `self` is the refusal of `field` for `reason`.
    pub open spec fn is_invalid_field(&self, field: Seq<char>, reason: Seq<char>) -> bool {
        self matches ConfigError::InvalidField { field: f, reason: r } && f@ == field && r@ == reason
    }
}

// ---------------------------------------------------------------------------
// Merging the layers
// ---------------------------------------------------------------------------

/// The source root: from the command line, else from the file, else `src`.
pub open spec fn chosen_source_root(file: Option<ForgeJsonFile>, cli: CliOverrides) -> Seq<char> {
    match cli.source_root {
        Some(s) => s@,
        None => match file {
            Some(f) => match f.source_root {
                Some(s) => s@,
                None => "src"@,
            },
            None => "src"@,
        },
    }
}

/// The language: from the file, else `ts`.
pub open spec fn chosen_language(file: Option<ForgeJsonFile>) -> Seq<char> {
    match file {
        Some(f) => match f.language {
            Some(l) => l@,
            None => "ts"@,
        },
        None => "ts"@,
    }
}

/// Whether spec files are generated: from the command line, else from the
/// file, else yes.
pub open spec fn chosen_generate_spec(file: Option<ForgeJsonFile>, cli: CliOverrides) -> bool {
    match cli.generate_spec {
        Some(b) => b,
        None => match file {
            Some(f) => match f.generate_spec {
                Some(b) => b,
                None => true,
            },
            None => true,
        },
    }
}

/// Whether files go flat into the output path: from the command line, else
/// from the file, else no.
pub open spec fn chosen_flat(file: Option<ForgeJsonFile>, cli: CliOverrides) -> bool {
    match cli.flat {
        Some(b) => b,
        None => match file {
            Some(f) => match f.flat {
                Some(b) => b,
                None => false,
            },
            None => false,
        },
    }
}

/// The path overrides that the file gives, as text.
pub open spec fn file_path_entries(file: Option<ForgeJsonFile>) -> Seq<(Seq<char>, Seq<char>)> {
    match file {
        Some(f) => match f.paths {
            Some(p) => pair_views(p@),
            None => Seq::empty(),
        },
        None => Seq::empty(),
    }
}

pub open spec fn is_supported_language(l: Seq<char>) -> bool {
    l == "ts"@ || l == "js"@
}

/// A relative path that tries to leave the project root.
pub open spec fn escapes_root(rel: Seq<char>) -> bool {
    has_prefix(rel, ".."@)
}

/// The position of the first override whose path tries to leave the root.
pub open spec fn first_escaping(entries: Seq<(Seq<char>, Seq<char>)>) -> Option<int>
    decreases entries.len(),
{
    if entries.len() == 0 {
        None
    } else if escapes_root(entries[0].1) {
        Some(0)
    } else {
        match first_escaping(entries.drop_first()) {
            Some(i) => Some(i + 1),
            None => None,
        }
    }
}

/// Each override's path joined to the project root.
pub open spec fn rooted_entries(root: Seq<char>, entries: Seq<(Seq<char>, Seq<char>)>) -> Seq<(Seq<char>, Seq<char>)> {
    entries.map_values(|e: (Seq<char>, Seq<char>)| (e.0, joined_path(root, e.1)))
}

pub open spec fn language_reason(l: Seq<char>) -> Seq<char> {
    "'"@ + l + "' is not supported: use 'ts' or 'js'"@
}

pub open spec fn escape_field(artifact: Seq<char>) -> Seq<char> {
    "paths."@ + artifact
}

pub open spec fn escape_reason(rel: Seq<char>) -> Seq<char> {
    "path '"@ + rel + "' must not escape project root"@
}

/// Resolves per-artifact path overrides against the project root, refusing
/// the first one (in the given order) that tries to leave the root.
fn resolve_path_overrides(project_root: &str, raw_paths: Option<&Vec<(String, String)>>) -> (res:
    ConfigResult<Vec<(String, String)>>)
    ensures
        ({
            let entries = match raw_paths {
                Some(p) => pair_views(p@),
                None => Seq::empty(),
            };
            match first_escaping(entries) {
                None => res matches Ok(v) && pair_views(v@) == rooted_entries(project_root@, entries),
                Some(i) => res matches Err(e) && e.is_invalid_field(
                    escape_field(entries[i].0),
                    escape_reason(entries[i].1),
                ),
            }
        }),
{
    let mut out: Vec<(String, String)> = Vec::new();
    let raw = match raw_paths {
        Some(r) => r,
        None => {
            assert(pair_views(out@) =~= rooted_entries(project_root@, Seq::empty()));
            return Ok(out);
        },
    };
    let ghost entries = pair_views(raw@);
    let mut i: usize = 0;
    assert(entries.skip(0) =~= entries);
    while i < raw.len()
        invariant
            i <= raw@.len(),
            raw_paths == Some(raw),
            entries == pair_views(raw@),
            pair_views(out@) == rooted_entries(project_root@, entries.take(i as int)),
            first_escaping(entries) == match first_escaping(entries.skip(i as int)) {
                Some(j) => Some(j + i),
                None => None,
            },
        decreases raw@.len() - i,
    {
        let artifact = &raw[i].0;
        let rel = &raw[i].1;
        let rel_chars = chars_of(rel.as_str());
        let dots = chars_of("..");
        proof {
            assert(entries.skip(i as int)[0] == entries[i as int]);
            assert(entries.skip(i as int).drop_first() =~= entries.skip(i + 1));
        }
        assert(entries[i as int] == (artifact@, rel@));
        if starts_with(rel_chars.as_slice(), dots.as_slice()) {
            assert(escapes_root(entries.skip(i as int)[0].1));
            assert(first_escaping(entries.skip(i as int)) == Some(0int));
            let field = concat("paths.", artifact.as_str());
            let reason = concat("path '", rel.as_str());
            let reason = concat(reason.as_str(), "' must not escape project root");
            assert(first_escaping(entries) == Some(i as int));
            return Err(ConfigError::InvalidField { field, reason });
        }
        let joined = join_path(project_root, rel.as_str());
        let ghost old_out = out@;
        let key = artifact.clone();
        assert(key@ == artifact@);
        out.push((key, joined));
        i = i + 1;
        proof {
            assert(entries.take(i as int) =~= entries.take(i - 1).push(entries[i - 1]));
            assert(pair_views(out@) =~= pair_views(old_out).push((artifact@, joined@)));
            assert(rooted_entries(project_root@, entries.take(i as int)) =~= rooted_entries(
                project_root@,
                entries.take(i - 1),
            ).push((artifact@, joined_path(project_root@, rel@))));
        }
    }
    assert(entries.take(i as int) =~= entries);
    assert(entries.skip(i as int) =~= Seq::<(Seq<char>, Seq<char>)>::empty());
    Ok(out)
}

/// Checks that the language is one that can be generated.
fn validate_language(lang: &str) -> (res: ConfigResult<()>)
    ensures
        is_supported_language(lang@) ==> res is Ok,
        !is_supported_language(lang@) ==> (res matches Err(e) && e.is_invalid_field(
            "language"@,
            language_reason(lang@),
        )),
{
    if same_text(lang, "ts") || same_text(lang, "js") {
        Ok(())
    } else {
        let reason = concat("'", lang);
        let reason = concat(reason.as_str(), "' is not supported: use 'ts' or 'js'");
        Err(ConfigError::InvalidField { field: "language".to_owned(), reason })
    }
}

/// Merges defaults, the file and the command line: the command line wins
/// over the file, which wins over the defaults. The language must be `ts`
/// or `js`, and no path override may start with `..`.
pub fn resolve_config(
    project_root: &str,
    file_config: Option<&ForgeJsonFile>,
    cli_overrides: &CliOverrides,
) -> (res: ConfigResult<ResolvedConfig>)
    ensures
        ({
            let file = match file_config {
                Some(f) => Some(*f),
                None => None,
            };
            let lang = chosen_language(file);
            let entries = file_path_entries(file);
            if !is_supported_language(lang) {
                res matches Err(e) && e.is_invalid_field("language"@, language_reason(lang))
            } else if let Some(i) = first_escaping(entries) {
                res matches Err(e) && e.is_invalid_field(
                    escape_field(entries[i].0),
                    escape_reason(entries[i].1),
                )
            } else {
                res matches Ok(c) && {
                    &&& c.project_root@ == project_root@
                    &&& c.source_root@ == joined_path(
                        project_root@,
                        chosen_source_root(file, *cli_overrides),
                    )
                    &&& c.language@ == lang
                    &&& c.generate_spec == chosen_generate_spec(file, *cli_overrides)
                    &&& c.flat == chosen_flat(file, *cli_overrides)
                    &&& pair_views(c.paths@) == rooted_entries(project_root@, entries)
                }
            }
        }),
        // Without a command-line value or a file value, the defaults apply,
        // whether or not a file was found.
        cli_overrides.generate_spec is None && (file_config matches Some(f) ==> f.generate_spec is None)
            ==> (res matches Ok(c) ==> c.generate_spec),
        cli_overrides.flat is None && (file_config matches Some(f) ==> f.flat is None)
            ==> (res matches Ok(c) ==> !c.flat),
        cli_overrides.source_root is None && (file_config matches Some(f) ==> f.source_root is None)
            ==> (res matches Ok(c) ==> c.source_root@ == joined_path(project_root@, seq!['s', 'r', 'c'])),
        (file_config matches Some(f) ==> f.language is None) ==> (res matches Ok(c) ==> c.language@ == seq!['t', 's']),
        // A command-line value wins over the file.
        cli_overrides.generate_spec matches Some(b) ==> (res matches Ok(c) ==> c.generate_spec == b),
        cli_overrides.flat matches Some(b) ==> (res matches Ok(c) ==> c.flat == b),
        cli_overrides.source_root matches Some(r) ==> (res matches Ok(c) ==> c.source_root@ == joined_path(project_root@, r@)),
        // A file value wins over the default.
        cli_overrides.generate_spec is None ==> (file_config matches Some(f) ==> (f.generate_spec matches Some(b)
            ==> (res matches Ok(c) ==> c.generate_spec == b))),
        cli_overrides.flat is None ==> (file_config matches Some(f) ==> (f.flat matches Some(b)
            ==> (res matches Ok(c) ==> c.flat == b))),
        // Resolution succeeds exactly when the language is `ts` or `js` and no
        // path override begins with `..`.
        res is Ok <==> {
            &&& (file_config matches Some(f) ==> (f.language matches Some(l) ==> l@ == seq!['t', 's'] || l@ == seq!['j', 's']))
            &&& (file_config matches Some(f) ==> (f.paths matches Some(ps) ==> forall|k: int|
                0 <= k < ps@.len() ==> !((#[trigger] ps@[k]).1@.len() >= 2 && ps@[k].1@[0] == '.' && ps@[k].1@[1] == '.')))
        },
        // Every override is kept, in order, joined to the project root.
        res matches Ok(c) ==> match file_config {
            Some(f) => match f.paths {
                Some(ps) => c.paths@.len() == ps@.len() && forall|k: int| 0 <= k < ps@.len() ==>
                    (#[trigger] c.paths@[k]).0@ == ps@[k].0@ && c.paths@[k].1@ == joined_path(project_root@, ps@[k].1@),
                None => c.paths@.len() == 0,
            },
            None => c.paths@.len() == 0,
        },
{
    proof {
        reveal_strlit("src");
        reveal_strlit("ts");
        reveal_strlit("js");
        let file = match file_config {
            Some(f) => Some(*f),
            None => None,
        };
        let entries = file_path_entries(file);
        lemma_first_escaping_is_leading_dots(entries);
        assert("ts"@ =~= seq!['t', 's']);
        assert("js"@ =~= seq!['j', 's']);
        assert(is_supported_language(chosen_language(file)) <==> (file_config matches Some(f) ==> (
            f.language matches Some(l) ==> l@ == seq!['t', 's'] || l@ == seq!['j', 's'])));
        if let Some(f) = file_config {
            if let Some(ps) = &f.paths {
                assert(entries == pair_views(ps@));
                assert forall|k: int| 0 <= k < ps@.len() implies #[trigger] entries[k] == (ps@[k].0@, ps@[k].1@) by {}
                assert((forall|k: int| 0 <= k < ps@.len() ==> !((#[trigger] ps@[k]).1@.len() >= 2 && ps@[k].1@[0] == '.' && ps@[k].1@[1] == '.'))
                    <==> (forall|k: int| 0 <= k < entries.len() ==> !((#[trigger] entries[k]).1.len() >= 2
                    && entries[k].1[0] == '.' && entries[k].1[1] == '.'))) by {
                    if forall|k: int| 0 <= k < ps@.len() ==> !((#[trigger] ps@[k]).1@.len() >= 2 && ps@[k].1@[0] == '.' && ps@[k].1@[1] == '.') {
                        assert forall|k: int| 0 <= k < entries.len() implies !((#[trigger] entries[k]).1.len() >= 2
                            && entries[k].1[0] == '.' && entries[k].1[1] == '.') by {
                            assert(entries[k] == (ps@[k].0@, ps@[k].1@));
                        }
                    }
                    if forall|k: int| 0 <= k < entries.len() ==> !((#[trigger] entries[k]).1.len() >= 2
                        && entries[k].1[0] == '.' && entries[k].1[1] == '.') {
                        assert forall|k: int| 0 <= k < ps@.len() implies !((#[trigger] ps@[k]).1@.len() >= 2
                            && ps@[k].1@[0] == '.' && ps@[k].1@[1] == '.') by {
                            assert(entries[k] == (ps@[k].0@, ps@[k].1@));
                        }
                    }
                }
            } else {
                assert(entries.len() == 0);
            }
        } else {
            assert(entries.len() == 0);
        }
    }
    let source_root_str: &str = match &cli_overrides.source_root {
        Some(s) => s.as_str(),
        None => match file_config {
            Some(c) => match &c.source_root {
                Some(s) => s.as_str(),
                None => ConfigDefaults::source_root(),
            },
            None => ConfigDefaults::source_root(),
        },
    };
    let source_root = join_path(project_root, source_root_str);

    let language: String = match file_config {
        Some(c) => match &c.language {
            Some(l) => l.clone(),
            None => ConfigDefaults::language().to_owned(),
        },
        None => ConfigDefaults::language().to_owned(),
    };
    validate_language(language.as_str())?;

    let generate_spec = match cli_overrides.generate_spec {
        Some(b) => b,
        None => match file_config {
            Some(c) => match c.generate_spec {
                Some(b) => b,
                None => ConfigDefaults::generate_spec(),
            },
            None => ConfigDefaults::generate_spec(),
        },
    };

    let flat = match cli_overrides.flat {
        Some(b) => b,
        None => match file_config {
            Some(c) => match c.flat {
                Some(b) => b,
                None => ConfigDefaults::flat(),
            },
            None => ConfigDefaults::flat(),
        },
    };

    let raw_paths: Option<&Vec<(String, String)>> = match file_config {
        Some(c) => match &c.paths {
            Some(p) => Some(p),
            None => None,
        },
        None => None,
    };
    let paths = resolve_path_overrides(project_root, raw_paths)?;

    let config = ResolvedConfig {
        project_root: project_root.to_owned(),
        source_root,
        language,
        generate_spec,
        flat,
        paths,
    };
    proof {
        let file = match file_config {
            Some(f) => Some(*f),
            None => None,
        };
        let entries = file_path_entries(file);
        assert(pair_views(config.paths@) == rooted_entries(project_root@, entries));
        assert(config.paths@.len() == entries.len()) by {
            assert(pair_views(config.paths@).len() == config.paths@.len());
        }
        assert forall|k: int| 0 <= k < entries.len() implies (#[trigger] config.paths@[k]).0@ == entries[k].0
            && config.paths@[k].1@ == joined_path(project_root@, entries[k].1) by {
            assert(pair_views(config.paths@)[k] == rooted_entries(project_root@, entries)[k]);
        }
    }
    Ok(config)
}

/// Layering of settings: a value given on the command line wins over the
/// file and the defaults, a value in the file wins over the defaults, and
/// with neither the documented defaults apply.
pub proof fn lemma_settings_layering(file: Option<ForgeJsonFile>, cli: CliOverrides)
    ensures
        cli.source_root matches Some(s) ==> chosen_source_root(file, cli) == s@,
        cli.generate_spec matches Some(b) ==> chosen_generate_spec(file, cli) == b,
        cli.flat matches Some(b) ==> chosen_flat(file, cli) == b,
        file matches Some(f) ==> (f.source_root matches Some(s) ==> (cli.source_root is None
            ==> chosen_source_root(file, cli) == s@)),
        file matches Some(f) ==> (f.generate_spec matches Some(b) ==> (cli.generate_spec is None
            ==> chosen_generate_spec(file, cli) == b)),
        file matches Some(f) ==> (f.flat matches Some(b) ==> (cli.flat is None ==> chosen_flat(
            file,
            cli,
        ) == b)),
        file matches Some(f) ==> (f.language matches Some(l) ==> chosen_language(file) == l@),
        file is None && cli.source_root is None ==> chosen_source_root(file, cli) == "src"@,
        file is None && cli.generate_spec is None ==> chosen_generate_spec(file, cli),
        file is None && cli.flat is None ==> !chosen_flat(file, cli),
        file is None ==> chosen_language(file) == "ts"@,
{
}

/// Every resolved path override lies under the project root: with a
/// project root that is not empty, the joined path begins with it, unless
/// the override is itself absolute.
pub proof fn lemma_overrides_are_rooted(root: Seq<char>, entries: Seq<(Seq<char>, Seq<char>)>, k: int)
    requires
        0 <= k < entries.len(),
        !(entries[k].1.len() > 0 && entries[k].1[0] == '/'),
    ensures
        has_prefix(rooted_entries(root, entries)[k].1, root),
        rooted_entries(root, entries)[k].0 == entries[k].0,
{
    let joined = rooted_entries(root, entries)[k].1;
    assert(joined.subrange(0, root.len() as int) =~= root);
}


/// A path override is refused exactly when its text begins with `..`:
/// `./src` or `src/db` are accepted.
pub proof fn lemma_escapes_root_is_leading_dots(p: Seq<char>)
    ensures
        escapes_root(p) <==> (p.len() >= 2 && p[0] == '.' && p[1] == '.'),
{
    reveal_strlit("..");
    if p.len() >= 2 && p[0] == '.' && p[1] == '.' {
        assert(p.subrange(0, 2) =~= ".."@);
    }
    if escapes_root(p) {
        assert(p.subrange(0, 2)[0] == p[0]);
        assert(p.subrange(0, 2)[1] == p[1]);
    }
}

/// No override is refused exactly when none begins with `..`.
pub proof fn lemma_first_escaping_is_leading_dots(entries: Seq<(Seq<char>, Seq<char>)>)
    ensures
        first_escaping(entries) is None <==> forall|k: int| 0 <= k < entries.len() ==> !((#[trigger] entries[k]).1.len() >= 2
            && entries[k].1[0] == '.' && entries[k].1[1] == '.'),
    decreases entries.len(),
{
    if entries.len() > 0 {
        lemma_escapes_root_is_leading_dots(entries[0].1);
        lemma_first_escaping_is_leading_dots(entries.drop_first());
        assert forall|k: int| 0 < k < entries.len() implies #[trigger] entries[k] == entries.drop_first()[k - 1] by {}
        if first_escaping(entries) is None {
            assert forall|k: int| 0 <= k < entries.len() implies !((#[trigger] entries[k]).1.len() >= 2
                && entries[k].1[0] == '.' && entries[k].1[1] == '.') by {
                if k > 0 {
                    assert(entries[k] == entries.drop_first()[k - 1]);
                }
            }
        } else {
            if first_escaping(entries.drop_first()) is Some {
                let k = choose|k: int| 0 <= k < entries.drop_first().len() && (#[trigger] entries.drop_first()[k]).1.len() >= 2
                    && entries.drop_first()[k].1[0] == '.' && entries.drop_first()[k].1[1] == '.';
                assert(entries[k + 1] == entries.drop_first()[k]);
            }
        }
    }
}

/// Whatever a file says, a setting given on the command line is the one
/// used; a setting absent from the command line and from the file (or with
/// no file at all) takes its default: `src`, `ts`, spec files generated,
/// not flat.
pub proof fn lemma_defaults_apply(file: Option<ForgeJsonFile>, cli: CliOverrides)
    ensures
        cli.generate_spec is None && (file matches Some(f) ==> f.generate_spec is None) ==> chosen_generate_spec(file, cli),
        cli.flat is None && (file matches Some(f) ==> f.flat is None) ==> !chosen_flat(file, cli),
        cli.source_root is None && (file matches Some(f) ==> f.source_root is None) ==> chosen_source_root(file, cli)
            == seq!['s', 'r', 'c'],
        (file matches Some(f) ==> f.language is None) ==> chosen_language(file) == seq!['t', 's'],
{
    reveal_strlit("src");
    reveal_strlit("ts");
}

} // verus!
