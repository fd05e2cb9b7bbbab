//! Generation: rendering an artifact's templates and writing the files that
//! do not exist yet, through a file system supplied by the caller.
use vstd::prelude::*;
use crate::artifact::{template_name_of, ArtifactName, GenerationRequest};
use crate::error::{ForgeError, ForgeResult};
use crate::paths::{joined_path, join_path, parent_of, parent_path};
use crate::template::{
    output_file_name, renders_selection, RenderCall, NameContext, RenderedFile, TemplateContext, TemplateEngine,
    TemplateEngineError,
};

verus! {

/// The file operations that generation needs. Implementations decide what
/// the operations do; nothing is assumed of their results.
pub trait FileSystem {
    fn create_dir_all(&self, path: &str) -> ForgeResult<()>;

    fn write_file(&self, path: &str, contents: &str) -> ForgeResult<()>;

    fn file_exists(&self, path: &str) -> bool;

    fn read_file(&self, path: &str) -> ForgeResult<String>;
}

/// One file of a generation run: where it goes, and whether it was left
/// alone because it already existed.
#[derive(Debug, Clone)]
pub struct GeneratedFile {
    pub path: String,
    pub skipped: bool,
}

/// The result of a generation run.
#[derive(Debug, Clone)]
pub struct GenerationOutput {
    pub files: Vec<GeneratedFile>,
    pub dry_run: bool,
}

/// What happens to one rendered file.
#[derive(Debug, Clone, Copy, PartialEq, Eq, Structural)]
pub enum FileAction {
    /// The file exists already and is left alone.
    Skip,
    /// The file would be created, but this is a dry run.
    Preview,
    /// The file is created.
    Write,
}

pub open spec fn file_action_spec(exists: bool, dry_run: bool) -> FileAction {
    if exists {
        FileAction::Skip
    } else if dry_run {
        FileAction::Preview
    } else {
        FileAction::Write
    }
}

/// Decides what happens to a rendered file: existing files are skipped, and
/// nothing is written in a dry run.
pub fn file_action(exists: bool, dry_run: bool) -> (res: FileAction)
    ensures
        res == file_action_spec(exists, dry_run),
        dry_run ==> res != FileAction::Write,
        exists ==> res == FileAction::Skip,
{
    if exists {
        FileAction::Skip
    } else if dry_run {
        FileAction::Preview
    } else {
        FileAction::Write
    }
}

/// Where a rendered file goes: directly under the output path when flat,
/// otherwise in a folder named after the artifact's kebab-case name.
pub open spec fn output_file_path(request: GenerationRequest, relative: Seq<char>) -> Seq<char> {
    if request.flat {
        joined_path(request.output_path@, relative)
    } else {
        joined_path(joined_path(request.output_path@, request.name.kebab@), relative)
    }
}

/// Resolves the output path of a rendered file.
pub fn resolve_output_path(request: &GenerationRequest, relative_file: &str) -> (res: String)
    ensures
        res@ == output_file_path(*request, relative_file@),
{
    if request.flat {
        join_path(request.output_path.as_str(), relative_file)
    } else {
        let dir = join_path(request.output_path.as_str(), request.name.kebab.as_str());
        join_path(dir.as_str(), relative_file)
    }
}

/// A file-system call that the generator issued while writing an artifact,
/// with the outcome it received, as the generator records it.
pub enum FsCall {
    /// `file_exists(path)` answered `answer`.
    Exists { path: Seq<char>, answer: bool },
    /// `create_dir_all(path)` gave `result`.
    CreateDir { path: Seq<char>, result: ForgeResult<()> },
    /// `write_file(path, contents)` gave `result`.
    Write { path: Seq<char>, contents: Seq<char>, result: ForgeResult<()> },
}

/// The calls that creating a missing file makes once the existence check
/// has answered no: its parent directory (when it has one), then the file.
/// `dir` and `write` are the outcomes of the two calls.
pub open spec fn creation_calls(
    path: Seq<char>,
    contents: Seq<char>,
    dir: ForgeResult<()>,
    write: ForgeResult<()>,
) -> Seq<FsCall> {
    match parent_path(path) {
        Some(d) => if dir is Ok {
            seq![
                FsCall::CreateDir { path: d, result: dir },
                FsCall::Write { path, contents, result: write },
            ]
        } else {
            seq![FsCall::CreateDir { path: d, result: dir }]
        },
        None => seq![FsCall::Write { path, contents, result: write }],
    }
}

/// The rendered file `f` was handled completely with the calls `calls`: its
/// output path was checked; for an existing file, or in a dry run, nothing
/// else happened; otherwise its directory was created and its contents
/// written, both successfully.
pub open spec fn handled_file(request: GenerationRequest, f: RenderedFile, calls: Seq<FsCall>) -> bool {
    let path = output_file_path(request, f.relative_path@);
    &&& calls.len() > 0
    &&& calls[0] matches FsCall::Exists { path: p, answer } && p == path
    &&& if calls[0]->answer || request.dry_run {
        calls.len() == 1
    } else {
        calls.drop_first() == creation_calls(path, f.contents@, Ok(()), Ok(()))
    }
}

/// How a handled file is reported: at its output path, skipped exactly when
/// the file system said it existed.
pub open spec fn reported_file(request: GenerationRequest, f: RenderedFile, calls: Seq<FsCall>, out: GeneratedFile) -> bool {
    &&& out.path@ == output_file_path(request, f.relative_path@)
    &&& out.skipped == calls[0]->answer
}

/// Handling the rendered file `f` failed with `e` after the calls `calls`:
/// its output path did not exist, this is no dry run, and creating its
/// directory or writing it gave the error `e`, after which nothing more was
/// called.
pub open spec fn failed_file(request: GenerationRequest, f: RenderedFile, calls: Seq<FsCall>, e: ForgeError) -> bool {
    let path = output_file_path(request, f.relative_path@);
    &&& !request.dry_run
    &&& calls.len() > 0
    &&& calls[0] == FsCall::Exists { path, answer: false }
    &&& (calls.drop_first() == creation_calls(path, f.contents@, Err(e), Ok(()))
        || calls.drop_first() == creation_calls(path, f.contents@, Ok(()), Err(e)))
    &&& !(calls.drop_first() == creation_calls(path, f.contents@, Ok(()), Ok(())))
}

/// A run over the rendered `files` made the calls in `log` (one entry per
/// file handled) and gave `res`: on success every file was handled in turn
/// and is reported at its position; on failure the files before the last
/// entry were handled and the last one failed with the returned error.
pub open spec fn run_trace(
    request: GenerationRequest,
    files: Seq<RenderedFile>,
    log: Seq<Seq<FsCall>>,
    res: ForgeResult<GenerationOutput>,
) -> bool {
    match res {
        Ok(out) => {
            &&& out.dry_run == request.dry_run
            &&& log.len() == files.len()
            &&& out.files@.len() == files.len()
            &&& forall|k: int| 0 <= k < files.len() ==> handled_file(request, #[trigger] files[k], log[k])
                && reported_file(request, files[k], log[k], out.files@[k])
        },
        Err(e) => {
            &&& 0 < log.len() <= files.len()
            &&& forall|k: int| 0 <= k < log.len() - 1 ==> handled_file(request, #[trigger] files[k], log[k])
            &&& failed_file(request, files[log.len() - 1], log[log.len() - 1], e)
        },
    }
}

/// A successful unit result is `Ok(())`.
proof fn lemma_ok_unit(r: ForgeResult<()>)
    requires
        r is Ok,
    ensures
        r == Ok::<(), ForgeError>(()),
{
    let u = r->Ok_0;
    assert(u == ());
}

/// A run that handled the first `log.len()` files and then failed with `e`
/// on the next one, after the calls `calls`, is a run that `run_trace`
/// allows.
proof fn lemma_failed_run(
    request: GenerationRequest,
    files: Seq<RenderedFile>,
    log: Seq<Seq<FsCall>>,
    calls: Seq<FsCall>,
    e: ForgeError,
)
    requires
        log.len() < files.len(),
        forall|k: int| 0 <= k < log.len() ==> handled_file(request, #[trigger] files[k], log[k]),
        failed_file(request, files[log.len() as int], calls, e),
    ensures
        run_trace(request, files, log.push(calls), Err(e)),
{
    let full = log.push(calls);
    assert(full[log.len() as int] == calls);
    assert forall|k: int| 0 <= k < full.len() - 1 implies handled_file(request, #[trigger] files[k], full[k]) by {
        assert(full[k] == log[k]);
    }
}

/// The main artifact generator.
pub struct Generator<F: FileSystem> {
    fs: F,
    engine: TemplateEngine,
}

impl<F: FileSystem> Generator<F> {
    /// The engine that renders the templates.
    pub closed spec fn engine_spec(&self) -> TemplateEngine {
        self.engine
    }

    /// The file system that the generator asks and writes through.
    pub closed spec fn file_system(&self) -> F {
        self.fs
    }

    /// Builds a generator from a file system and the outcome of loading the
    /// templates; a loading failure becomes a render error of `engine_init`.
    pub fn new(fs: F, engine: Result<TemplateEngine, TemplateEngineError>) -> (res: ForgeResult<Self>)
        ensures
            match engine {
                Ok(e) => res matches Ok(g) && g.engine_spec() == e && g.file_system() == fs,
                Err(e) => res matches Err(ForgeError::TemplateRender { name, reason })
                    && name@ == "engine_init"@ && reason@ == e.message_spec(),
            },
    {
        match engine {
            Ok(engine) => Ok(Generator { fs, engine }),
            Err(e) => Err(ForgeError::TemplateRender { name: "engine_init".to_owned(), reason: e.message() }),
        }
    }

    /// Asks the file system whether `path` exists, recording the question
    /// and its answer in `calls`.
    fn exists_recorded(&self, path: &str, calls: &mut Ghost<Seq<FsCall>>) -> (answer: bool)
        ensures
            final(calls)@ == old(calls)@.push(FsCall::Exists { path: path@, answer }),
    {
        let answer = self.fs.file_exists(path);
        proof {
            calls@ = calls@.push(FsCall::Exists { path: path@, answer });
        }
        answer
    }

    /// Asks the file system to create a directory and its parents, recording
    /// the call and its result in `calls`.
    fn create_dir_recorded(&self, path: &str, calls: &mut Ghost<Seq<FsCall>>) -> (result: ForgeResult<()>)
        ensures
            final(calls)@ == old(calls)@.push(FsCall::CreateDir { path: path@, result }),
    {
        let result = self.fs.create_dir_all(path);
        proof {
            calls@ = calls@.push(FsCall::CreateDir { path: path@, result });
        }
        result
    }

    /// Asks the file system to write a file, recording the call and its
    /// result in `calls`.
    fn write_recorded(&self, path: &str, contents: &str, calls: &mut Ghost<Seq<FsCall>>) -> (result:
        ForgeResult<()>)
        ensures
            final(calls)@ == old(calls)@.push(
                FsCall::Write { path: path@, contents: contents@, result },
            ),
    {
        let result = self.fs.write_file(path, contents);
        proof {
            calls@ = calls@.push(FsCall::Write { path: path@, contents: contents@, result });
        }
        result
    }

    /// Writes rendered files for a request, one after the other. For each
    /// file it asks whether its output path exists; an existing file is
    /// skipped, and in a dry run nothing more happens. Otherwise the parent
    /// directory is created and the rendered contents written; the first
    /// failure is returned unchanged and ends the run. `log` receives, for
    /// each file that was handled, the file-system calls that this function
    /// issued for it, in order, with the answers they returned. The log is
    /// kept by the library's own recording helpers; nothing checks it against
    /// what the file system did.
    pub fn write_rendered(
        &self,
        request: &GenerationRequest,
        rendered: &[RenderedFile],
        log: &mut Ghost<Seq<Seq<FsCall>>>,
    ) -> (res: ForgeResult<GenerationOutput>)
        ensures
            run_trace(*request, rendered@, final(log)@, res),
            request.dry_run ==> res is Ok,
    {
        let mut output_files: Vec<GeneratedFile> = Vec::new();
        let ghost files = rendered@;
        proof {
            log@ = Seq::empty();
        }
        let mut i: usize = 0;
        while i < rendered.len()
            invariant
                i <= files.len(),
                files == rendered@,
                log@.len() == i,
                output_files@.len() == i,
                forall|k: int| 0 <= k < i ==> handled_file(*request, #[trigger] files[k], log@[k])
                    && reported_file(*request, files[k], log@[k], output_files@[k]),
            decreases files.len() - i,
        {
            let ghost log0 = log@;
            let ghost out0 = output_files@;
            let rendered_file = &rendered[i];
            assert(files[i as int] == *rendered_file);
            let file_path = resolve_output_path(request, rendered_file.relative_path.as_str());
            let ghost path = file_path@;
            let ghost contents = rendered_file.contents@;
            let mut calls: Ghost<Seq<FsCall>> = Ghost(Seq::empty());
            let exists = self.exists_recorded(file_path.as_str(), &mut calls);
            assert(calls@ =~= seq![FsCall::Exists { path, answer: exists }]);
            let skipped = match file_action(exists, request.dry_run) {
                FileAction::Skip => true,
                FileAction::Preview => false,
                FileAction::Write => {
                    match parent_of(file_path.as_str()) {
                        Some(parent) => {
                            let made = self.create_dir_recorded(parent.as_str(), &mut calls);
                            if let Err(e) = made {
                                proof {
                                    let ghost tail = calls@.drop_first();
                                    assert(tail =~= creation_calls(path, contents, Err(e), Ok(())));
                                    assert(tail != creation_calls(path, contents, Ok(()), Ok(()))) by {
                                        assert(tail[0] != creation_calls(path, contents, Ok(()), Ok(()))[0]);
                                    }
                                    lemma_failed_run(*request, files, log@, calls@, e);
                                    log@ = log@.push(calls@);
                                }
                                return Err(e);
                            }
                            proof {
                                lemma_ok_unit(made);
                            }
                            assert(calls@.drop_first() =~= seq![FsCall::CreateDir { path: parent@, result: Ok(()) }]);
                        },
                        None => {
                            assert(calls@.drop_first() =~= Seq::<FsCall>::empty());
                        },
                    }
                    let ghost before_write = calls@;
                    assert(before_write.drop_first() =~= match parent_path(path) {
                        Some(d) => seq![FsCall::CreateDir { path: d, result: Ok(()) }],
                        None => Seq::<FsCall>::empty(),
                    });
                    let written = self.write_recorded(
                        file_path.as_str(),
                        rendered_file.contents.as_str(),
                        &mut calls,
                    );
                    if let Err(e) = written {
                        proof {
                            let ghost tail = calls@.drop_first();
                            assert(tail =~= creation_calls(path, contents, Ok(()), Err(e)));
                            assert(tail != creation_calls(path, contents, Ok(()), Ok(()))) by {
                                let n = tail.len() - 1;
                                assert(tail[n] != creation_calls(path, contents, Ok(()), Ok(()))[n]);
                            }
                            lemma_failed_run(*request, files, log@, calls@, e);
                            log@ = log@.push(calls@);
                        }
                        return Err(e);
                    }
                    proof {
                        lemma_ok_unit(written);
                    }
                    assert(calls@.drop_first() =~= creation_calls(path, contents, Ok(()), Ok(())));
                    false
                },
            };
            output_files.push(GeneratedFile { path: file_path, skipped });
            proof {
                log@ = log@.push(calls@);
                assert(handled_file(*request, files[i as int], calls@));
                assert forall|k: int| 0 <= k < i + 1 implies handled_file(*request, #[trigger] files[k], log@[k])
                    && reported_file(*request, files[k], log@[k], output_files@[k]) by {
                    if k < i {
                        assert(log@[k] == log0[k]);
                        assert(output_files@[k] == out0[k]);
                    }
                }
            }
            i = i + 1;
        }
        Ok(GenerationOutput { files: output_files, dry_run: request.dry_run })
    }

    /// Executes a generation request end to end: renders the templates of
    /// the request's kind (spec templates when requested) with the request's
    /// name variants, then writes the files as `write_rendered` does. A
    /// rendering failure is reported as a render error of the kind, before
    /// any file-system call; in a dry run it is the only failure there can
    /// be. Whatever the file system answers, the outcome is one that
    /// `run_trace` allows for the rendered files and some sequence of calls.
    pub fn generate(&self, request: &GenerationRequest) -> (res: ForgeResult<GenerationOutput>)
        ensures
            (res matches Err(ForgeError::TemplateRender { name, reason: _ })
                && name@ == template_name_of(request.kind)) || exists|files: Seq<RenderedFile>, log: Seq<Seq<FsCall>>| {
                &&& files.len() > 0
                &&& renders_selection(
                    files,
                    self.engine_spec().selected(
                        template_name_of(request.kind),
                        request.generate_spec,
                    ),
                    template_name_of(request.kind),
                    request.name.kebab@,
                )
                &&& run_trace(*request, files, log, res)
            },
            self.engine_spec().selected(template_name_of(request.kind), request.generate_spec).is_empty()
                ==> (res matches Err(ForgeError::TemplateRender { name, reason: _ })
                && name@ == template_name_of(request.kind)),
            request.dry_run && res is Err ==> (res matches Err(ForgeError::TemplateRender { name, reason: _ })
                && name@ == template_name_of(request.kind)),
    {
        let mut renders: Ghost<Seq<RenderCall>> = Ghost(Seq::empty());
        let mut log: Ghost<Seq<Seq<FsCall>>> = Ghost(Seq::empty());
        self.generate_logged(request, &mut renders, &mut log)
    }

    /// As `generate`, recording the calls issued to Tera in `renders` and
    /// the file-system calls in `log`. Every template is rendered with the
    /// request's own name variants (raw, PascalCase, camelCase, snake_case,
    /// kebab-case); file `k` is named after the template of render call `k`
    /// and holds exactly the text that call gave; the writing follows
    /// `run_trace` over those files and `log`. Both records are the
    /// library's own; Tera's output and the file system's answers are not
    /// stated.
    pub fn generate_logged(
        &self,
        request: &GenerationRequest,
        renders: &mut Ghost<Seq<RenderCall>>,
        log: &mut Ghost<Seq<Seq<FsCall>>>,
    ) -> (res: ForgeResult<GenerationOutput>)
        ensures
            forall|i: int| 0 <= i < final(renders)@.len() ==> {
                let n = (#[trigger] final(renders)@[i]).name;
                &&& n.raw@ == request.name.raw@
                &&& n.pascal@ == request.name.pascal@
                &&& n.camel@ == request.name.camel@
                &&& n.snake@ == request.name.snake@
                &&& n.kebab@ == request.name.kebab@
            },
            (res matches Err(ForgeError::TemplateRender { name, reason: _ })
                && name@ == template_name_of(request.kind)) || exists|files: Seq<RenderedFile>| {
                &&& files.len() > 0
                &&& files.len() == final(renders)@.len()
                &&& forall|k: int| 0 <= k < files.len() ==> {
                    &&& (#[trigger] files[k]).relative_path@ == output_file_name(
                        final(renders)@[k].template,
                        template_name_of(request.kind),
                        request.name.kebab@,
                    )
                    &&& final(renders)@[k].output == Some(files[k].contents@)
                }
                &&& renders_selection(
                    files,
                    self.engine_spec().selected(
                        template_name_of(request.kind),
                        request.generate_spec,
                    ),
                    template_name_of(request.kind),
                    request.name.kebab@,
                )
                &&& run_trace(*request, files, final(log)@, res)
            },
            self.engine_spec().selected(template_name_of(request.kind), request.generate_spec).is_empty()
                ==> (res matches Err(ForgeError::TemplateRender { name, reason: _ })
                && name@ == template_name_of(request.kind)),
            request.dry_run && res is Err ==> (res matches Err(ForgeError::TemplateRender { name, reason: _ })
                && name@ == template_name_of(request.kind)),
    {
        let ctx = name_context(&request.name);
        let kind = request.kind.template_name();
        let rendered = match self.engine.render_logged(
            kind,
            request.name.kebab.as_str(),
            &ctx,
            request.generate_spec,
            renders,
        ) {
            Ok(files) => files,
            Err(e) => {
                return Err(ForgeError::TemplateRender { name: kind.to_owned(), reason: e.message() });
            },
        };
        let res = self.write_rendered(request, rendered.as_slice(), log);
        assert(run_trace(*request, rendered@, log@, res));
        res
    }
}

/// The context handed to the templates: the variants of the artifact's name.
pub fn name_context(name: &ArtifactName) -> (ctx: TemplateContext)
    ensures
        ctx.name.raw@ == name.raw@,
        ctx.name.pascal@ == name.pascal@,
        ctx.name.camel@ == name.camel@,
        ctx.name.snake@ == name.snake@,
        ctx.name.kebab@ == name.kebab@,
{
    TemplateContext {
        name: NameContext {
            raw: name.raw.clone(),
            pascal: name.pascal.clone(),
            camel: name.camel.clone(),
            snake: name.snake.clone(),
            kebab: name.kebab.clone(),
        },
    }
}

} // verus!
