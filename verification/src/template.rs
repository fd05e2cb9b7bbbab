//! The template engine: which templates belong to an artifact, what the
//! generated files are called, and rendering them with Tera.
use vstd::prelude::*;
use std::collections::BTreeMap;
use crate::text::{
    chars_of, concat, contains, ends_with, has_prefix, has_substring, has_suffix, replace,
    replace_all, starts_with, string_of,
};

verus! {

#[verifier::external_type_specification]
#[verifier::external_body]
pub struct ExTera(tera::Tera);

#[verifier::external_type_specification]
#[verifier::external_body]
pub struct ExTeraError(tera::Error);

#[verifier::external_type_specification]
#[verifier::external_body]
pub struct ExUtf8Error(std::str::Utf8Error);

/// The names of the templates registered in a Tera instance.
pub uninterp spec fn tera_template_names(t: tera::Tera) -> Set<Seq<char>>;

/// Whether `Tera::add_raw_templates`, called on an instance that holds no
/// template yet, accepts the given (name, source) pairs: it parses each
/// source and then checks the inheritance chains and macro imports of the
/// whole set, which depends on the pairs alone.
pub uninterp spec fn tera_accepts(sources: Seq<(Seq<char>, Seq<char>)>) -> bool;

/// The text of each (name, source) pair.
pub open spec fn source_views(sources: Seq<(String, String)>) -> Seq<(Seq<char>, Seq<char>)> {
    sources.map_values(|e: (String, String)| (e.0@, e.1@))
}

/// The names in a list of (name, source) pairs.
pub open spec fn source_names(sources: Seq<(String, String)>) -> Set<Seq<char>> {
    Set::new(|n: Seq<char>| exists|i: int| 0 <= i < sources.len() && (#[trigger] sources[i]).0@ == n)
}

/// Calls `Tera::default`, which registers filters, testers and functions but
/// no template.
#[verifier::external_body]
fn new_tera() -> (t: tera::Tera)
    ensures
        tera_template_names(t) == Set::<Seq<char>>::empty(),
{
    tera::Tera::default()
}

/// Calls `Tera::add_raw_templates`, which parses each (name, source) pair and
/// registers it under its name, then links template inheritance and checks
/// macro imports. On an instance without templates, whether it succeeds is
/// named by `tera_accepts`. On success the registered names are the earlier
/// ones and the given ones; after a failure nothing is claimed of the
/// instance.
#[verifier::external_body]
fn add_templates(t: &mut tera::Tera, sources: Vec<(String, String)>) -> (r: Result<(), tera::Error>)
    ensures
        tera_template_names(*old(t)).is_empty() ==> (r is Ok <==> tera_accepts(source_views(sources@))),
        r is Ok ==> tera_template_names(*final(t)) == tera_template_names(*old(t)).union(
            source_names(sources@),
        ),
{
    t.add_raw_templates(sources)
}

/// Calls `Tera::get_template_names`, which lists the keys of the template
/// map, each once, in an unspecified order.
#[verifier::external_body]
fn template_names(t: &tera::Tera) -> (names: Vec<String>)
    ensures
        forall|n: Seq<char>|
            tera_template_names(*t).contains(n) <==> (exists|i: int|
                0 <= i < names@.len() && (#[trigger] names@[i])@ == n),
        forall|i: int, j: int|
            0 <= i < j < names@.len() ==> (#[trigger] names@[i])@ != (#[trigger] names@[j])@,
{
    t.get_template_names().map(|n| n.to_string()).collect()
}

/// Calls `Tera::render` on one template, with the name variants under the
/// key `name`. Templates may call `now`, `get_random` or `get_env`, so the
/// output is not a function of the arguments: nothing is claimed of it.
#[verifier::external_body]
fn render_template(t: &tera::Tera, template: &str, name: &NameContext) -> (r: Result<String, tera::Error>) {
    let mut variants = BTreeMap::new();
    variants.insert("raw", name.raw.as_str());
    variants.insert("snake", name.snake.as_str());
    variants.insert("kebab", name.kebab.as_str());
    variants.insert("pascal", name.pascal.as_str());
    variants.insert("camel", name.camel.as_str());
    let mut ctx = tera::Context::new();
    ctx.insert("name", &variants);
    t.render(template, &ctx)
}

/// Calls `Display::fmt` of `tera::Error`; the text is not specified.
#[verifier::external_body]
fn tera_error_text(e: &tera::Error) -> String {
    e.to_string()
}

/// Calls `std::str::from_utf8`, which accepts exactly the valid UTF-8 byte
/// sequences and decodes them.
#[verifier::external_body]
fn decode_utf8(bytes: &[u8]) -> (r: Result<&str, std::str::Utf8Error>)
    ensures
        r is Ok <==> vstd::utf8::valid_utf8(bytes@),
        r matches Ok(s) ==> s@ == vstd::utf8::decode_utf8(bytes@),
{
    std::str::from_utf8(bytes)
}

/// The name variants handed to every template.
#[derive(Debug, Clone)]
pub struct NameContext {
    pub raw: String,
    pub snake: String,
    pub kebab: String,
    pub pascal: String,
    pub camel: String,
}

/// The data passed into every template render.
#[derive(Debug, Clone)]
pub struct TemplateContext {
    pub name: NameContext,
}

/// A single file to be generated, relative to the artifact's directory.
#[derive(Debug, Clone)]
pub struct RenderedFile {
    pub relative_path: String,
    pub contents: String,
}

/// What can go wrong while loading or rendering templates.
#[derive(Debug, Clone)]
pub enum TemplateEngineError {
    Init(String),
    Render { template: String, reason: String },
    NotFound(String),
    InvalidUtf8(String),
}

impl TemplateEngineError {
    pub open spec fn message_spec(&self) -> Seq<char> {
        match self {
            TemplateEngineError::Init(r) => "Failed to initialize template engine: "@ + r@,
            TemplateEngineError::Render { template, reason } =>
                "Template '"@ + template@ + "' failed to render: "@ + reason@,
            TemplateEngineError::NotFound(k) => "No templates found for this artifact type '"@ + k@ + "'"@,
            TemplateEngineError::InvalidUtf8(p) => "Template file '"@ + p@ + "' contains invalid UTF-8"@,
        }
    }

    /// The text shown to the user for this error.
    pub fn message(&self) -> (res: String)
        ensures
            res@ == self.message_spec(),
    {
        match self {
            TemplateEngineError::Init(r) => concat("Failed to initialize template engine: ", r.as_str()),
            TemplateEngineError::Render { template, reason } => {
                let s = concat("Template '", template.as_str());
                let s = concat(s.as_str(), "' failed to render: ");
                concat(s.as_str(), reason.as_str())
            },
            TemplateEngineError::NotFound(k) => {
                let s = concat("No templates found for this artifact type '", k.as_str());
                concat(s.as_str(), "'")
            },
            TemplateEngineError::InvalidUtf8(p) => {
                let s = concat("Template file '", p.as_str());
                concat(s.as_str(), "' contains invalid UTF-8")
            },
        }
    }
}

// ---------------------------------------------------------------------------
// Which templates, and the names of the files they produce
// ---------------------------------------------------------------------------

/// A template of the artifact kind `kind` (its name begins with `kind/`) that
/// is rendered: spec templates (with `.spec.` in the name) only on request.
pub open spec fn is_selected(template: Seq<char>, kind: Seq<char>, include_spec: bool) -> bool {
    has_prefix(template, kind + "/"@) && (include_spec || !has_substring(template, ".spec."@))
}

/// The file produced by a template: the kind's folder and every `.tera`
/// dropped; `kind.rest` becomes `name.kind.rest`, and otherwise every
/// occurrence of the kind is replaced by the name.
pub open spec fn output_file_name(template: Seq<char>, kind: Seq<char>, name: Seq<char>) -> Seq<char> {
    let s = replace_all(template.skip(kind.len() + 1int), ".tera"@, Seq::<char>::empty());
    if has_prefix(s, kind + "."@) {
        name + "."@ + kind + "."@ + s.skip(kind.len() + 1int)
    } else {
        replace_all(s, kind, name)
    }
}

/// Whether a template is rendered for `kind`.
pub fn template_selected(template: &str, kind: &str, include_spec: bool) -> (res: bool)
    ensures
        res == is_selected(template@, kind@, include_spec),
{
    let t = chars_of(template);
    let prefix = concat(kind, "/");
    let p = chars_of(prefix.as_str());
    if !starts_with(t.as_slice(), p.as_slice()) {
        return false;
    }
    if include_spec {
        return true;
    }
    let spec_marker = chars_of(".spec.");
    !contains(t.as_slice(), spec_marker.as_slice())
}

/// The name of the file that a selected template produces.
pub fn file_name_for(template: &str, kind: &str, name_kebab: &str) -> (res: String)
    requires
        has_prefix(template@, kind@ + "/"@),
    ensures
        res@ == output_file_name(template@, kind@, name_kebab@),
{
    let t = chars_of(template);
    let k = chars_of(kind);
    let mut stripped: Vec<char> = Vec::new();
    assert(template@.len() >= kind@.len() + 1) by {
        assert((kind@ + "/"@).len() == kind@.len() + "/"@.len());
        reveal_strlit("/");
    }
    let tlen = t.len();
    let mut i = k.len() + 1;
    while i < t.len()
        invariant
            k@ == kind@,
            t@ == template@,
            k@.len() + 1 <= i <= t@.len(),
            stripped@ == t@.subrange(k@.len() + 1int, i as int),
        decreases t@.len() - i,
    {
        stripped.push(t[i]);
        i = i + 1;
        assert(stripped@ =~= t@.subrange(k@.len() + 1int, i as int));
    }
    assert(stripped@ =~= template@.skip(kind@.len() + 1int));
    let tera_ext = chars_of(".tera");
    let empty: Vec<char> = Vec::new();
    let s = replace(stripped.as_slice(), tera_ext.as_slice(), empty.as_slice());
    assert(empty@ =~= Seq::<char>::empty());
    let kind_dot = concat(kind, ".");
    let kd = chars_of(kind_dot.as_str());
    if starts_with(s.as_slice(), kd.as_slice()) {
        let mut rest: Vec<char> = Vec::new();
        let mut j = kd.len();
        while j < s.len()
            invariant
                kd@.len() <= j <= s@.len(),
                rest@ == s@.subrange(kd@.len() as int, j as int),
            decreases s@.len() - j,
        {
            rest.push(s[j]);
            j = j + 1;
            assert(rest@ =~= s@.subrange(kd@.len() as int, j as int));
        }
        assert(kd@.len() == kind@.len() + 1) by {
            reveal_strlit(".");
        }
        assert(rest@ =~= s@.skip(kind@.len() + 1int));
        let out = concat(name_kebab, ".");
        let out = concat(out.as_str(), kind);
        let out = concat(out.as_str(), ".");
        let rest_text = string_of(rest.as_slice());
        concat(out.as_str(), rest_text.as_str())
    } else {
        let named = chars_of(name_kebab);
        let replaced = replace(s.as_slice(), k.as_slice(), named.as_slice());
        string_of(replaced.as_slice())
    }
}

// ---------------------------------------------------------------------------
// The engine
// ---------------------------------------------------------------------------

/// A template file among the embedded ones: its path ends with `.tera`.
pub open spec fn is_template_file(path: Seq<char>) -> bool {
    has_suffix(path, ".tera"@)
}

/// The position of the first template file whose bytes are not UTF-8.
pub open spec fn first_undecodable(files: Seq<(String, Vec<u8>)>) -> Option<int>
    decreases files.len(),
{
    if files.len() == 0 {
        None
    } else if is_template_file(files[0].0@) && !vstd::utf8::valid_utf8(files[0].1@) {
        Some(0)
    } else {
        match first_undecodable(files.drop_first()) {
            Some(i) => Some(i + 1),
            None => None,
        }
    }
}

/// The template files among the given files, in order, as (path, decoded
/// text) pairs.
pub open spec fn template_sources(files: Seq<(String, Vec<u8>)>) -> Seq<(Seq<char>, Seq<char>)>
    decreases files.len(),
{
    if files.len() == 0 {
        Seq::empty()
    } else {
        let init = template_sources(files.drop_last());
        let f = files.last();
        if is_template_file(f.0@) {
            init.push((f.0@, vstd::utf8::decode_utf8(f.1@)))
        } else {
            init
        }
    }
}

/// The paths of the template files among the given files.
pub open spec fn template_paths(files: Seq<(String, Vec<u8>)>) -> Set<Seq<char>> {
    Set::new(|p: Seq<char>| exists|i: int| 0 <= i < files.len() && is_template_file((#[trigger] files[i]).0@) && files[i].0@ == p)
}

/// A call of Tera's renderer that the engine issued: the template, the name
/// variants handed over, and the text given back (none on failure), as the
/// engine records it.
pub struct RenderCall {
    pub template: Seq<char>,
    pub name: NameContext,
    pub output: Option<Seq<char>>,
}

/// Renders artifact templates.
pub struct TemplateEngine {
    tera: tera::Tera,
}

impl TemplateEngine {
    /// The names of the registered templates.
    pub closed spec fn names(&self) -> Set<Seq<char>> {
        tera_template_names(self.tera)
    }

    /// The templates rendered for an artifact kind.
    pub open spec fn selected(&self, kind: Seq<char>, include_spec: bool) -> Set<Seq<char>> {
        self.names().filter(|n: Seq<char>| is_selected(n, kind, include_spec))
    }

    /// Builds the engine from embedded files given as (path, bytes): the
    /// files whose path ends with `.tera` are decoded as UTF-8 and registered
    /// under their path. The first such file that is not UTF-8 is reported;
    /// a failure of Tera to parse or link the templates is an `Init` error.
    pub fn new(files: Vec<(String, Vec<u8>)>) -> (res: Result<Self, TemplateEngineError>)
        ensures
            match first_undecodable(files@) {
                Some(i) => res matches Err(TemplateEngineError::InvalidUtf8(p)) && p@ == files@[i].0@,
                None => match res {
                    Ok(engine) => engine.names() == template_paths(files@),
                    Err(e) => e is Init,
                },
            },
            first_undecodable(files@) is None ==> (res is Ok <==> tera_accepts(template_sources(files@))),
    {
        let mut sources: Vec<(String, String)> = Vec::new();
        let ghost fs = files@;
        let mut i: usize = 0;
        let ext = chars_of(".tera");
        assert(fs.skip(0) =~= fs);
        while i < files.len()
            invariant
                i <= fs.len(),
                fs == files@,
                ext@ == ".tera"@,
                first_undecodable(fs) == match first_undecodable(fs.skip(i as int)) {
                    Some(j) => Some(j + i),
                    None => None,
                },
                forall|p: Seq<char>|
                    source_names(sources@).contains(p) <==> (exists|j: int|
                        0 <= j < i && is_template_file((#[trigger] fs[j]).0@) && fs[j].0@ == p),
                source_views(sources@) == template_sources(fs.take(i as int)),
            decreases fs.len() - i,
        {
            proof {
                assert(fs.skip(i as int)[0] == fs[i as int]);
                assert(fs.skip(i as int).drop_first() =~= fs.skip(i + 1));
            }
            let path = &files[i].0;
            let path_chars = chars_of(path.as_str());
            let ghost before = sources@;
            proof {
                assert(fs.take(i + 1).drop_last() =~= fs.take(i as int));
                assert(fs.take(i + 1).last() == fs[i as int]);
            }
            if ends_with(path_chars.as_slice(), ext.as_slice()) {
                match decode_utf8(files[i].1.as_slice()) {
                    Ok(text) => {
                        sources.push((path.clone(), text.to_owned()));
                        proof {
                            assert(source_views(sources@) =~= source_views(before).push(
                                (fs[i as int].0@, vstd::utf8::decode_utf8(fs[i as int].1@)),
                            ));
                            assert forall|p: Seq<char>|
                                source_names(sources@).contains(p) <==> (exists|j: int|
                                    0 <= j < i + 1 && is_template_file((#[trigger] fs[j]).0@) && fs[j].0@ == p) by {
                                if source_names(sources@).contains(p) {
                                    let k = choose|k: int| 0 <= k < sources@.len() && (#[trigger] sources@[k]).0@ == p;
                                    if k < before.len() {
                                        assert(sources@[k] == before[k]);
                                        assert(source_names(before).contains(p));
                                    }
                                }
                                if exists|j: int| 0 <= j < i + 1 && is_template_file((#[trigger] fs[j]).0@) && fs[j].0@ == p {
                                    let j = choose|j: int| 0 <= j < i + 1 && is_template_file((#[trigger] fs[j]).0@) && fs[j].0@ == p;
                                    if j < i {
                                        assert(source_names(before).contains(p));
                                        let k = choose|k: int| 0 <= k < before.len() && (#[trigger] before[k]).0@ == p;
                                        assert(sources@[k] == before[k]);
                                    } else {
                                        assert(sources@[before.len() as int].0@ == p);
                                    }
                                }
                            }
                        }
                    },
                    Err(_) => {
                        assert(first_undecodable(fs.skip(i as int)) == Some(0int));
                        return Err(TemplateEngineError::InvalidUtf8(path.clone()));
                    },
                }
            } else {
                proof {
                    assert forall|p: Seq<char>|
                        source_names(sources@).contains(p) <==> (exists|j: int|
                            0 <= j < i + 1 && is_template_file((#[trigger] fs[j]).0@) && fs[j].0@ == p) by {
                        if exists|j: int| 0 <= j < i + 1 && is_template_file((#[trigger] fs[j]).0@) && fs[j].0@ == p {
                            let j = choose|j: int| 0 <= j < i + 1 && is_template_file((#[trigger] fs[j]).0@) && fs[j].0@ == p;
                            assert(j < i);
                        }
                    }
                }
            }
            i = i + 1;
        }
        assert(fs.skip(i as int) =~= Seq::<(String, Vec<u8>)>::empty());
        assert(fs.take(i as int) =~= fs);
        let ghost names = source_names(sources@);
        assert(names =~= template_paths(fs));
        let mut tera = new_tera();
        match add_templates(&mut tera, sources) {
            Ok(()) => {
                let engine = TemplateEngine { tera };
                assert(engine.names() =~= template_paths(files@));
                Ok(engine)
            },
            Err(e) => Err(TemplateEngineError::Init(tera_error_text(&e))),
        }
    }

    /// Renders every template selected for `artifact_kind` (those under its
    /// folder, spec templates only when `include_spec`), naming each output
    /// file after `name_kebab`. The files come in an unspecified order, one
    /// per selected template; their contents are Tera's output. With no
    /// selected template the result is `NotFound`; a template that fails to
    /// render is reported by name.
    pub fn render(
        &self,
        artifact_kind: &str,
        name_kebab: &str,
        ctx: &TemplateContext,
        include_spec: bool,
    ) -> (res: Result<Vec<RenderedFile>, TemplateEngineError>)
        ensures
            match res {
                Ok(files) => files@.len() > 0 && renders_selection(
                    files@,
                    self.selected(artifact_kind@, include_spec),
                    artifact_kind@,
                    name_kebab@,
                ),
                Err(TemplateEngineError::NotFound(k)) => k@ == artifact_kind@
                    && self.selected(artifact_kind@, include_spec).is_empty(),
                Err(TemplateEngineError::Render { template, reason: _ }) =>
                    self.selected(artifact_kind@, include_spec).contains(template@),
                Err(_) => false,
            },
            self.selected(artifact_kind@, include_spec).is_empty() ==> res is Err,
    {
        let mut calls: Ghost<Seq<RenderCall>> = Ghost(Seq::empty());
        self.render_logged(artifact_kind, name_kebab, ctx, include_spec, &mut calls)
    }

    /// Renders one template with the given name variants, recording the call,
    /// the variants handed to Tera and the text it gave back in `calls`.
    fn render_recorded(&self, template: &str, name: &NameContext, calls: &mut Ghost<Seq<RenderCall>>) -> (r:
        Result<String, tera::Error>)
        ensures
            final(calls)@ == old(calls)@.push(
                RenderCall {
                    template: template@,
                    name: *name,
                    output: match r {
                        Ok(s) => Some(s@),
                        Err(_) => None,
                    },
                },
            ),
    {
        let r = render_template(&self.tera, template, name);
        proof {
            calls@ = calls@.push(
                RenderCall {
                    template: template@,
                    name: *name,
                    output: match &r {
                        Ok(s) => Some(s@),
                        Err(_) => None,
                    },
                },
            );
        }
        r
    }

    /// As `render`, recording in `calls` each call that the engine issued to
    /// Tera: the template, the name variants handed over (always those of
    /// `ctx`) and the text Tera gave back. File `k` of the result is named
    /// after the template of call `k` and holds exactly what that call gave.
    /// The record is the engine's own; Tera's output itself is not stated.
    pub fn render_logged(
        &self,
        artifact_kind: &str,
        name_kebab: &str,
        ctx: &TemplateContext,
        include_spec: bool,
        calls: &mut Ghost<Seq<RenderCall>>,
    ) -> (res: Result<Vec<RenderedFile>, TemplateEngineError>)
        ensures
            forall|i: int| 0 <= i < final(calls)@.len() ==> (#[trigger] final(calls)@[i]).name == ctx.name
                && self.selected(artifact_kind@, include_spec).contains(final(calls)@[i].template),
            res matches Ok(files) ==> {
                &&& final(calls)@.len() == files@.len()
                &&& forall|k: int| 0 <= k < files@.len() ==> {
                    &&& (#[trigger] files@[k]).relative_path@ == output_file_name(
                        final(calls)@[k].template,
                        artifact_kind@,
                        name_kebab@,
                    )
                    &&& final(calls)@[k].output == Some(files@[k].contents@)
                }
            },
            match res {
                Ok(files) => files@.len() > 0 && renders_selection(
                    files@,
                    self.selected(artifact_kind@, include_spec),
                    artifact_kind@,
                    name_kebab@,
                ),
                Err(TemplateEngineError::NotFound(k)) => k@ == artifact_kind@
                    && self.selected(artifact_kind@, include_spec).is_empty(),
                Err(TemplateEngineError::Render { template, reason: _ }) =>
                    self.selected(artifact_kind@, include_spec).contains(template@),
                Err(_) => false,
            },
            self.selected(artifact_kind@, include_spec).is_empty() ==> res is Err,
    {
        let names = template_names(&self.tera);
        let ghost sel = self.selected(artifact_kind@, include_spec);
        proof {
            calls@ = Seq::empty();
        }
        let ghost mut order: Seq<Seq<char>> = Seq::empty();
        let mut selected: Vec<String> = Vec::new();
        let mut outputs: Vec<String> = Vec::new();
        let mut i: usize = 0;
        while i < names.len()
            invariant
                i <= names@.len(),
                sel == self.selected(artifact_kind@, include_spec),
                forall|n: Seq<char>|
                    self.names().contains(n) <==> (exists|j: int|
                        0 <= j < names@.len() && (#[trigger] names@[j])@ == n),
                forall|a: int, b: int|
                    0 <= a < b < names@.len() ==> (#[trigger] names@[a])@ != (#[trigger] names@[b])@,
                selected@.len() == order.len(),
                outputs@.len() == order.len(),
                forall|k: int| 0 <= k < order.len() ==> (#[trigger] selected@[k])@ == order[k],
                forall|k: int| 0 <= k < order.len() ==> is_selected(#[trigger] order[k], artifact_kind@, include_spec),
                forall|k: int| #![trigger order[k]] 0 <= k < order.len() ==> exists|j: int| 0 <= j < i && (#[trigger] names@[j])@ == order[k],
                forall|j: int| 0 <= j < i && is_selected((#[trigger] names@[j])@, artifact_kind@, include_spec) ==> order.contains(names@[j]@),
                forall|a: int, b: int| 0 <= a < b < order.len() ==> order[a] != order[b],
                calls@.len() == order.len(),
                forall|k: int| 0 <= k < order.len() ==> (#[trigger] calls@[k]).template == order[k]
                    && calls@[k].name == ctx.name && calls@[k].output == Some(outputs@[k]@),
            decreases names@.len() - i,
        {
            let template = names[i].as_str();
            if template_selected(template, artifact_kind, include_spec) {
                let ghost calls_before = calls@;
                let contents = match self.render_recorded(template, &ctx.name, calls) {
                    Ok(c) => c,
                    Err(e) => {
                        assert(self.names().contains(names@[i as int]@));
                        assert(sel.contains(template@));
                        assert forall|k: int| 0 <= k < calls@.len() implies (#[trigger] calls@[k]).name == ctx.name
                            && sel.contains(calls@[k].template) by {
                            if k < calls_before.len() {
                                assert(calls@[k] == calls_before[k]);
                                assert(is_selected(order[k], artifact_kind@, include_spec));
                                let j = choose|j: int| 0 <= j < i && (#[trigger] names@[j])@ == order[k];
                                assert(self.names().contains(names@[j]@));
                            }
                        }
                        return Err(TemplateEngineError::Render {
                            template: template.to_owned(),
                            reason: tera_error_text(&e),
                        });
                    },
                };
                let ghost old_order = order;
                let ghost old_outputs = outputs@;
                selected.push(template.to_owned());
                outputs.push(contents);
                proof {
                    order = order.push(template@);
                    assert forall|k: int| 0 <= k < order.len() implies (#[trigger] calls@[k]).template == order[k]
                        && calls@[k].name == ctx.name && calls@[k].output == Some(outputs@[k]@) by {
                        if k < old_order.len() {
                            assert(calls@[k] == calls_before[k]);
                            assert(outputs@[k] == old_outputs[k]);
                        }
                    }
                    assert forall|k: int| #![trigger order[k]] 0 <= k < order.len() implies exists|j: int| 0 <= j < i + 1 && (#[trigger] names@[j])@ == order[k] by {
                        if k < old_order.len() {
                            assert(order[k] == old_order[k]);
                        } else {
                            assert(names@[i as int]@ == order[k]);
                        }
                    }
                    assert forall|a: int, b: int| 0 <= a < b < order.len() implies order[a] != order[b] by {
                        if b == old_order.len() {
                            assert(order[a] == old_order[a]);
                            let j = choose|j: int| 0 <= j < i && (#[trigger] names@[j])@ == old_order[a];
                            assert(names@[j]@ != names@[i as int]@);
                        } else {
                            assert(order[a] == old_order[a]);
                            assert(order[b] == old_order[b]);
                        }
                    }
                    assert forall|j: int| 0 <= j < i + 1 && is_selected((#[trigger] names@[j])@, artifact_kind@, include_spec) implies order.contains(names@[j]@) by {
                        if j < i {
                            let k = choose|k: int| 0 <= k < old_order.len() && old_order[k] == names@[j]@;
                            assert(order[k] == old_order[k]);
                        } else {
                            assert(order[old_order.len() as int] == names@[j]@);
                        }
                    }
                }
            }
            i = i + 1;
        }
        proof {
            assert forall|n: Seq<char>| sel.contains(n) <==> order.contains(n) by {
                if sel.contains(n) {
                    let j = choose|j: int| 0 <= j < names@.len() && (#[trigger] names@[j])@ == n;
                    assert(is_selected(names@[j]@, artifact_kind@, include_spec));
                }
                if order.contains(n) {
                    let k = choose|k: int| 0 <= k < order.len() && order[k] == n;
                    let j = choose|j: int| 0 <= j < i && (#[trigger] names@[j])@ == order[k];
                    assert(self.names().contains(n));
                }
            }
        }
        if selected.len() == 0 {
            proof {
                assert forall|n: Seq<char>| !sel.contains(n) by {
                    if sel.contains(n) {
                        assert(order.contains(n));
                    }
                }
                assert(sel =~= Set::<Seq<char>>::empty());
            }
            return Err(TemplateEngineError::NotFound(artifact_kind.to_owned()));
        }
        proof {
            assert(!sel.is_empty()) by {
                assert(sel.contains(order[0]));
            }
        }
        proof {
            assert forall|k: int| 0 <= k < selected@.len() implies has_prefix(
                (#[trigger] selected@[k])@,
                artifact_kind@ + "/"@,
            ) by {
                assert(is_selected(order[k], artifact_kind@, include_spec));
            }
        }
        let rendered = rendered_files(selected.as_slice(), outputs.as_slice(), artifact_kind, name_kebab);
        assert(renders_selection(rendered@, sel, artifact_kind@, name_kebab@)) by {
            assert(order.len() == rendered@.len());
        }
        Ok(rendered)
    }
}

/// The files that the templates `templates` of `kind` produce, given what
/// each of them rendered to (`outputs`, in the same order): file `k` carries
/// the output file name of template `k` and exactly the text `outputs[k]`.
pub fn rendered_files(templates: &[String], outputs: &[String], kind: &str, name_kebab: &str) -> (files:
    Vec<RenderedFile>)
    requires
        templates@.len() == outputs@.len(),
        forall|k: int| 0 <= k < templates@.len() ==> has_prefix((#[trigger] templates@[k])@, kind@ + "/"@),
    ensures
        files@.len() == templates@.len(),
        forall|k: int| 0 <= k < files@.len() ==> {
            &&& (#[trigger] files@[k]).relative_path@ == output_file_name(templates@[k]@, kind@, name_kebab@)
            &&& files@[k].contents@ == outputs@[k]@
        },
{
    let mut files: Vec<RenderedFile> = Vec::new();
    let mut i: usize = 0;
    while i < templates.len()
        invariant
            i <= templates@.len(),
            templates@.len() == outputs@.len(),
            forall|k: int| 0 <= k < templates@.len() ==> has_prefix((#[trigger] templates@[k])@, kind@ + "/"@),
            files@.len() == i,
            forall|k: int| 0 <= k < i ==> {
                &&& (#[trigger] files@[k]).relative_path@ == output_file_name(templates@[k]@, kind@, name_kebab@)
                &&& files@[k].contents@ == outputs@[k]@
            },
        decreases templates@.len() - i,
    {
        let relative_path = file_name_for(templates[i].as_str(), kind, name_kebab);
        let contents = outputs[i].clone();
        files.push(RenderedFile { relative_path, contents });
        i = i + 1;
    }
    files
}

/// `files` are the outputs of the templates in `selection`, one each: there
/// is an ordering of the selection, without repeats, whose templates produce
/// the files' names in the same order.
pub open spec fn renders_selection(
    files: Seq<RenderedFile>,
    selection: Set<Seq<char>>,
    kind: Seq<char>,
    name: Seq<char>,
) -> bool {
    exists|order: Seq<Seq<char>>| {
        &&& order.len() == files.len()
        &&& forall|a: int, b: int| 0 <= a < b < order.len() ==> order[a] != order[b]
        &&& forall|n: Seq<char>| selection.contains(n) <==> order.contains(n)
        &&& forall|k: int| 0 <= k < order.len() ==> (#[trigger] files[k]).relative_path@
            == output_file_name(order[k], kind, name)
    }
}

} // verus!
