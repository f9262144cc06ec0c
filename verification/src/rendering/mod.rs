//! Rendering pages: the stylesheet registry, the page renderer, the steps
//! around them, and the renderer of a whole content tree.

use vstd::prelude::*;
use vstd::string::*;
use vstd::utf8::encode_utf8;
use vstd::utf8::valid_utf8;
use crate::common::save_file::SaveFileParams;
use crate::common::save_file::SaveFileParamsView;
use crate::context::BuildContext;
use crate::data::dir_loader::FolderData;
use crate::data::entry::walk_view;
use crate::data::entry::WalkEntry;
use crate::error::BuildError;
use crate::error::BuildErrorView;
use crate::path::extension_dot;
use crate::path::join;
use crate::path::last_index_of;
use crate::path::lemma_file_name_is_component;
use crate::path::lemma_last_index_of;
use crate::path::lemma_last_index_of_unique;
use crate::path::lemma_strip_prefix_of_join;
use crate::path::spec_file_name;
use crate::path::spec_file_stem;
use crate::path::spec_has_file_name;
use crate::path::spec_join;
use crate::path::spec_strip_prefix;
use crate::path::text_eq;
use crate::path::spec_with_extension;
use crate::path::with_extension;
use crate::pipeline::may_succeed;
use crate::pipeline::ProcessingChain;
use crate::pipeline::ProcessingParallel;
use crate::pipeline::ProcessingStep;
use crate::rendering::load_dir_content::page_jobs;
use crate::rendering::load_dir_content::pairs_view;
use crate::rendering::load_dir_content::spec_page_jobs;
use crate::data::page::Page;
use crate::rendering::render_page::lemma_render_repeats;
use crate::rendering::render_page::lemma_rendered_place;
use crate::rendering::render_page::spec_engine_is_function;
use crate::rendering::render_page::spec_engine_takes;
use crate::rendering::render_page::spec_rendered;
use crate::rendering::render_page::spec_style_name;
use crate::rendering::render_page::style_name;
use crate::rendering::render_page::RenderJob;
use crate::rendering::render_page::RenderPage;
use crate::rendering::style::load_stylesheets;
use crate::rendering::style::spec_answers;
use crate::rendering::style::spec_index;
use crate::rendering::style::spec_processed;
use crate::rendering::style::spec_pending;
use crate::rendering::style::ProcessedStyle;
use crate::rendering::style::StyleEmbed;
use crate::rendering::style::Stylesheets;

pub mod load_dir_content;
pub mod render_page;
pub mod stage;
pub mod style;
pub mod template;

verus! {

/// The extension of every rendered page.
pub const OUTPUT_EXTENSION: &'static str = "html";

/// The step that lists the pages of a folder with their default template.
pub struct LoadDir;

impl ProcessingStep for LoadDir {
    type Input = FolderData;

    type Output = Vec<(String, String)>;

    /// Every folder is accepted.
    open spec fn accepts(&self, input: Self::Input) -> bool {
        true
    }

    /// The step does not fail, and gives the pages of the folder with its
    /// default template.
    open spec fn outcome(&self, input: Self::Input, result: Result<Self::Output, BuildError>) -> bool {
        match result {
            Ok(jobs) => pairs_view(jobs@) == spec_page_jobs(input@),
            Err(_) => false,
        }
    }

    fn process(&self, input: Self::Input) -> (r: Result<Self::Output, BuildError>) {
        Ok(page_jobs(input))
    }
}

/// Where the output of the page at `rel` below the content root is written:
/// at the same place below the output root, with its extension replaced.
pub open spec fn spec_output_path(out_dir: Seq<char>, rel: Seq<char>, extension: Seq<char>) -> Seq<
    char,
> {
    spec_with_extension(spec_join(out_dir, rel), extension)
}

/// The step that says where a rendered page is written.
pub struct SaveOutput {
    pub out_dir: String,
    pub extension: &'static str,
}

impl SaveOutput {
    /// The file that holds the rendered page `content` of the page at
    /// `rel_path` below the content root.
    pub fn output(&self, rel_path: &str, content: &str) -> (r: SaveFileParams)
        ensures
            r@ == (SaveFileParamsView {
                path: spec_output_path(self.out_dir@, rel_path@, self.extension@),
                contents: encode_utf8(content@),
            }),
    {
        let target = join(self.out_dir.as_str(), rel_path);
        let path = with_extension(target.as_str(), self.extension);
        SaveFileParams { path, contents: content.as_bytes_vec() }
    }
}

impl ProcessingStep for SaveOutput {
    type Input = (String, String);

    type Output = SaveFileParams;

    /// Every rendered page is accepted.
    open spec fn accepts(&self, input: Self::Input) -> bool {
        true
    }

    /// The step does not fail, and gives the file to write.
    open spec fn outcome(&self, input: Self::Input, result: Result<Self::Output, BuildError>) -> bool {
        match result {
            Ok(file) => file@ == (SaveFileParamsView {
                path: spec_output_path(self.out_dir@, input.0@, self.extension@),
                contents: encode_utf8(input.1@),
            }),
            Err(_) => false,
        }
    }

    fn process(&self, input: Self::Input) -> (r: Result<Self::Output, BuildError>) {
        Ok(self.output(input.0.as_str(), input.1.as_str()))
    }
}

/// The file that holds the rendered page `rendered`, which is the place of a
/// page below the content root and its text: at that place below the output
/// root, with the output extension, holding the text as UTF-8.
pub open spec fn spec_output_file(out_dir: Seq<char>, rendered: (String, String)) -> SaveFileParamsView {
    SaveFileParamsView {
        path: spec_output_path(out_dir, rendered.0@, OUTPUT_EXTENSION@),
        contents: encode_utf8(rendered.1@),
    }
}

/// Whether `result` is what rendering `job` with `engine` and saving its
/// output may give: the file that holds a rendering of the job, or the
/// failure of rendering it.
pub open spec fn spec_job_outcome<E: Fn(String, tera::Context) -> Result<String, String>>(
    engine: E,
    content_dir: Seq<char>,
    out_dir: Seq<char>,
    job: RenderJob,
    result: Result<SaveFileParams, BuildError>,
) -> bool {
    match result {
        Ok(file) => exists|rendered: (String, String)| #[trigger]
            spec_rendered(engine, content_dir, job, Ok(rendered)) && file@ == spec_output_file(
                out_dir,
                rendered,
            ),
        Err(e) => spec_rendered(engine, content_dir, job, Err(e)),
    }
}

/// Whether rendering `job` with `engine` may succeed.
pub open spec fn spec_job_may_succeed<E: Fn(String, tera::Context) -> Result<String, String>>(
    engine: E,
    content_dir: Seq<char>,
    job: RenderJob,
) -> bool {
    exists|rendered: (String, String)| #[trigger]
        spec_rendered(engine, content_dir, job, Ok(rendered))
}

/// Whether the job at place `k` of folder `i` comes before the job at place
/// `at_k` of folder `at_i`, in the order of the folders and of the jobs in
/// them.
pub open spec fn spec_before(i: int, k: int, at_i: int, at_k: int) -> bool {
    i < at_i || (i == at_i && k < at_k)
}

/// Whether `e` is the failure of the job at place `k` of folder `i`, and
/// every job before it may succeed.
pub open spec fn spec_fails_at<E: Fn(String, tera::Context) -> Result<String, String>>(
    engine: E,
    content_dir: Seq<char>,
    jobs: Seq<Vec<RenderJob>>,
    i: int,
    k: int,
    e: BuildError,
) -> bool {
    &&& 0 <= i < jobs.len()
    &&& 0 <= k < jobs[i].len()
    &&& spec_rendered(engine, content_dir, jobs[i][k], Err(e))
    &&& forall|i2: int, k2: int|
        0 <= i2 < jobs.len() && 0 <= k2 < jobs[i2].len() && spec_before(i2, k2, i, k)
            ==> spec_job_may_succeed(engine, content_dir, #[trigger] jobs[i2][k2])
}

/// Whether every job of `jobs` may be handed to `engine`.
pub open spec fn spec_engine_takes_all<E: Fn(String, tera::Context) -> Result<String, String>>(
    engine: E,
    jobs: Seq<Vec<RenderJob>>,
) -> bool {
    forall|i: int, k: int|
        0 <= i < jobs.len() && 0 <= k < jobs[i].len() ==> spec_engine_takes(
            engine,
            #[trigger] jobs[i][k],
        )
}

/// The output path of a page is its place below the content root without its
/// extension, put below the output root, with the output extension behind a
/// dot.
pub proof fn lemma_output_path_by_stem(out_dir: Seq<char>, rel: Seq<char>, extension: Seq<char>)
    requires
        spec_has_file_name(rel),
        rel[0] != '/',
        extension.len() > 0,
    ensures
        spec_output_path(out_dir, rel, extension) == spec_join(
            out_dir,
            spec_with_extension(rel, Seq::<char>::empty()),
        ) + seq!['.'] + extension,
{
    lemma_file_name_is_component(rel);
    let name = spec_file_name(rel);
    lemma_last_index_of(name, '.');
    lemma_last_index_of(rel, '/');
    let stem = spec_file_stem(rel);
    let bare = spec_with_extension(rel, Seq::<char>::empty());
    assert(bare == rel.subrange(0, rel.len() - name.len() + stem.len()));
    assert(stem.len() > 0);
    assert(bare.len() > 0 && bare[0] == rel[0]);
    let joined = spec_join(out_dir, rel);
    let head: Seq<char> = if out_dir.len() == 0 || out_dir.last() == '/' {
        out_dir
    } else {
        out_dir + seq!['/']
    };
    assert(joined =~= head + rel);
    assert(spec_join(out_dir, bare) =~= head + bare);
    let cut: int = last_index_of(rel, '/');
    let at: int = head.len() + cut;
    assert(-1 <= at < joined.len());
    if at >= 0 {
        if cut >= 0 {
            assert(joined[at] == rel[cut]);
        } else {
            assert(head.len() > 0);
            assert(joined[at] == head.last());
        }
    } else {
        assert(head.len() == 0 && cut == -1);
    }
    assert forall|j: int| at < j < joined.len() implies joined[j] != '/' by {
        assert(joined[j] == rel[j - head.len()]);
    }
    lemma_last_index_of_unique(joined, '/', at);
    assert(spec_file_name(joined) =~= name);
    assert(spec_has_file_name(joined));
    assert(extension_dot(joined) == extension_dot(rel));
    assert(spec_file_stem(joined) == stem);
    assert(joined.subrange(0, joined.len() - name.len() + stem.len()) =~= head + bare);
}

/// The output of a page lies below the output root, at the place of the page
/// below the content root with the output extension in place of its own.
pub proof fn lemma_output_lies_below_root(out_dir: Seq<char>, rel: Seq<char>, extension: Seq<char>)
    requires
        spec_has_file_name(rel),
        rel[0] != '/',
        extension.len() > 0,
    ensures
        spec_strip_prefix(spec_output_path(out_dir, rel, extension), out_dir) == Some(
            spec_with_extension(rel, extension),
        ),
{
    lemma_output_path_by_stem(out_dir, rel, extension);
    lemma_file_name_is_component(rel);
    lemma_last_index_of(spec_file_name(rel), '.');
    let bare = spec_with_extension(rel, Seq::<char>::empty());
    let target = spec_with_extension(rel, extension);
    assert(target =~= bare + seq!['.'] + extension);
    assert(bare.len() > 0 && bare[0] == rel[0]);
    assert(target[0] == rel[0]);
    assert(spec_join(out_dir, target) =~= spec_join(out_dir, bare) + seq!['.'] + extension);
    lemma_strip_prefix_of_join(out_dir, target);
}

/// Two pages whose places below the content root differ in the extension
/// only are written to the same output path.
pub proof fn lemma_same_stem_same_output(
    out_dir: Seq<char>,
    first: Seq<char>,
    second: Seq<char>,
    extension: Seq<char>,
)
    requires
        spec_has_file_name(first),
        spec_has_file_name(second),
        first[0] != '/',
        second[0] != '/',
        extension.len() > 0,
        spec_with_extension(first, Seq::<char>::empty()) == spec_with_extension(
            second,
            Seq::<char>::empty(),
        ),
    ensures
        spec_output_path(out_dir, first, extension) == spec_output_path(out_dir, second, extension),
{
    lemma_output_path_by_stem(out_dir, first, extension);
    lemma_output_path_by_stem(out_dir, second, extension);
}

/// Rendering the same job again gives a file at the same path, whatever the
/// engine answers.
pub proof fn lemma_same_job_same_path<E: Fn(String, tera::Context) -> Result<String, String>>(
    engine: E,
    content_dir: Seq<char>,
    out_dir: Seq<char>,
    job: RenderJob,
    first: SaveFileParams,
    second: SaveFileParams,
)
    requires
        spec_job_outcome(engine, content_dir, out_dir, job, Ok(first)),
        spec_job_outcome(engine, content_dir, out_dir, job, Ok(second)),
    ensures
        first.path@ == second.path@,
        spec_strip_prefix(job.page_path@, content_dir) is Some,
        first.path@ == spec_output_path(
            out_dir,
            spec_strip_prefix(job.page_path@, content_dir)->0,
            OUTPUT_EXTENSION@,
        ),
        valid_utf8(first.contents@),
{
    let r1 = choose|rendered: (String, String)| #[trigger]
        spec_rendered(engine, content_dir, job, Ok(rendered)) && first@ == spec_output_file(
            out_dir,
            rendered,
        );
    let r2 = choose|rendered: (String, String)| #[trigger]
        spec_rendered(engine, content_dir, job, Ok(rendered)) && second@ == spec_output_file(
            out_dir,
            rendered,
        );
    lemma_rendered_place(engine, content_dir, job, Ok(r1));
    lemma_rendered_place(engine, content_dir, job, Ok(r2));
    vstd::utf8::encode_utf8_valid_utf8(r1.1@);
}

/// With an engine that answers by what it is handed, rendering the same job
/// again gives the same file: the same path and the same bytes.
pub proof fn lemma_same_job_same_file<E: Fn(String, tera::Context) -> Result<String, String>>(
    engine: E,
    content_dir: Seq<char>,
    out_dir: Seq<char>,
    job: RenderJob,
    first: SaveFileParams,
    second: SaveFileParams,
)
    requires
        spec_engine_is_function(engine),
        spec_job_outcome(engine, content_dir, out_dir, job, Ok(first)),
        spec_job_outcome(engine, content_dir, out_dir, job, Ok(second)),
    ensures
        first@ == second@,
{
    let r1 = choose|rendered: (String, String)| #[trigger]
        spec_rendered(engine, content_dir, job, Ok(rendered)) && first@ == spec_output_file(
            out_dir,
            rendered,
        );
    let r2 = choose|rendered: (String, String)| #[trigger]
        spec_rendered(engine, content_dir, job, Ok(rendered)) && second@ == spec_output_file(
            out_dir,
            rendered,
        );
    lemma_render_repeats(engine, content_dir, job, Ok(r1), Ok(r2));
}

/// Whether the files at the places `a` and `b` of `files` are written to the
/// same path.
pub open spec fn spec_collide(files: Seq<SaveFileParams>, a: int, b: int) -> bool {
    0 <= a < b < files.len() && files[a].path@ == files[b].path@
}

/// Finds two files that are written to the same path, so that the later
/// would replace the earlier: the first file that repeats the path of a file
/// before it, together with the first file that it repeats. `None` says that
/// every file has a path of its own.
pub fn first_collision(files: &Vec<SaveFileParams>) -> (r: Option<(usize, usize)>)
    ensures
        match r {
            Some((a, b)) => {
                &&& spec_collide(files@, a as int, b as int)
                &&& forall|i: int, j: int| spec_collide(files@, i, j) ==> b <= j
                &&& forall|i: int| spec_collide(files@, i, b as int) ==> a <= i
            },
            None => forall|i: int, j: int| !spec_collide(files@, i, j),
        },
{
    let mut b: usize = 0;
    while b < files.len()
        invariant
            b <= files.len(),
            forall|i: int, j: int| spec_collide(files@, i, j) ==> b <= j,
        decreases files.len() - b,
    {
        let mut a: usize = 0;
        while a < b
            invariant
                a <= b < files.len(),
                forall|i: int, j: int| spec_collide(files@, i, j) ==> b <= j,
                forall|i: int| spec_collide(files@, i, b as int) ==> a <= i,
            decreases b - a,
        {
            if text_eq(files[a].path.as_str(), files[b].path.as_str()) {
                return Some((a, b));
            }
            a = a + 1;
        }
        b = b + 1;
    }
    None
}

/// What preparing a page for rendering gives.
#[derive(Debug)]
pub enum Prepared {
    /// The job to render: the page with the embed fragment of its stylesheet.
    Ready(RenderJob),
    /// The stylesheet `name` has to be compiled from `source` and handed to
    /// `ContentRenderer::store_compiled` first; `page` is the page as it was
    /// handed in.
    Compile { name: String, source: String, page: Page },
}

/// Renders the pages of a content tree with the templates of one directory
/// and the stylesheets of another.
pub struct ContentRenderer {
    template_glob: String,
    ctx: BuildContext,
    styles: Stylesheets,
}

impl ContentRenderer {
    /// The directories of the build.
    pub closed spec fn spec_ctx(&self) -> BuildContext {
        self.ctx
    }

    /// The glob of the template files.
    pub closed spec fn spec_template_glob(&self) -> Seq<char> {
        self.template_glob@
    }

    /// The stylesheet registry.
    pub closed spec fn spec_styles(&self) -> Stylesheets {
        self.styles
    }

    /// A renderer for the directories of `ctx` and the stylesheets that a
    /// walk through its stylesheet directory found. The glob of the templates
    /// takes in every file below the template directory. Fails where a
    /// stylesheet does not lie below the stylesheet directory.
    pub fn new(ctx: BuildContext, style_entries: &Vec<WalkEntry>) -> (r: Result<Self, BuildError>)
        ensures
            match r {
                Ok(renderer) => {
                    &&& renderer.spec_ctx() == ctx
                    &&& renderer.spec_template_glob() == ctx.dirs.template_dir@ + "/**/*"@
                    &&& spec_index(ctx.dirs.stylesheet_dir@, walk_view(style_entries@)) == Ok::<
                        Map<Seq<char>, Seq<char>>,
                        Seq<char>,
                    >(renderer.spec_styles().sources())
                    &&& renderer.spec_styles().cache() == Map::<Seq<char>, Seq<char>>::empty()
                    &&& renderer.spec_styles().is_valid()
                },
                Err(e) => match spec_index(ctx.dirs.stylesheet_dir@, walk_view(style_entries@)) {
                    Err(p) => e@ == BuildErrorView::Io(p),
                    Ok(_) => false,
                },
            },
    {
        let mut template_glob = ctx.dirs.template_dir.clone();
        template_glob.append("/**/*");
        let styles = load_stylesheets(ctx.dirs.stylesheet_dir.as_str(), style_entries)?;
        Ok(Self { template_glob, ctx, styles })
    }

    /// The glob of the template files.
    pub fn template_glob(&self) -> (r: &str)
        ensures
            r@ == self.spec_template_glob(),
    {
        self.template_glob.as_str()
    }

    /// The directories of the build.
    pub fn ctx(&self) -> (r: &BuildContext)
        ensures
            *r == self.spec_ctx(),
    {
        &self.ctx
    }

    /// The embed fragment for a page that asks for the stylesheet `name`, or
    /// the stylesheet that has to be compiled first.
    pub fn get_style_embed(&self, name: &str) -> (r: StyleEmbed)
        ensures
            spec_answers(self.spec_styles().sources(), self.spec_styles().cache(), name@, r),
    {
        self.styles.get_style_embed(name)
    }

    /// Prepares the page at `page_path` for rendering: its job holds the embed
    /// fragment for the stylesheet named like its template, which is the
    /// template that the page names, else `default_template`. While a
    /// stylesheet that the fragment needs is not compiled yet, the answer
    /// names it and hands the page back.
    pub fn prepare(&self, page_path: &str, default_template: &str, page: Page) -> (r: Prepared)
        ensures
            match r {
                Prepared::Ready(job) => {
                    &&& job.page_path@ == page_path@
                    &&& job.default_template@ == default_template@
                    &&& job.page == page
                    &&& spec_answers(
                        self.spec_styles().sources(),
                        self.spec_styles().cache(),
                        spec_style_name(page.spec_template(), default_template@),
                        StyleEmbed::Ready(job.style_embed),
                    )
                },
                Prepared::Compile { name, source, page: same } => {
                    &&& same == page
                    &&& spec_answers(
                        self.spec_styles().sources(),
                        self.spec_styles().cache(),
                        spec_style_name(page.spec_template(), default_template@),
                        StyleEmbed::Compile { name, source },
                    )
                },
            },
    {
        let style_name = style_name(&page, default_template);
        match self.styles.get_style_embed(style_name.as_str()) {
            StyleEmbed::Ready(style_embed) => Prepared::Ready(
                RenderJob {
                    page_path: page_path.to_owned(),
                    default_template: default_template.to_owned(),
                    page,
                    style_embed,
                },
            ),
            StyleEmbed::Compile { name, source } => Prepared::Compile { name, source, page },
        }
    }

    /// Takes in the compiled stylesheet of `name`, for the output root of the
    /// build, if `name` is pending; any other name is refused with `None`.
    pub fn store_compiled(&mut self, name: &str, compiled: Vec<u8>) -> (r: Result<
        Option<ProcessedStyle>,
        BuildError,
    >)
        ensures
            final(self).spec_ctx() == old(self).spec_ctx(),
            final(self).spec_template_glob() == old(self).spec_template_glob(),
            final(self).spec_styles().sources() == old(self).spec_styles().sources(),
            old(self).spec_styles().is_valid() ==> final(self).spec_styles().is_valid(),
            match r {
                Ok(Some(p)) => {
                    &&& spec_pending(
                        old(self).spec_styles().sources(),
                        old(self).spec_styles().cache(),
                        name@,
                    )
                    &&& spec_processed(name@, compiled@, old(self).spec_ctx().dirs.output_dir@)
                        == Some(p.parts())
                    &&& final(self).spec_styles().cache() == old(self).spec_styles().cache().insert(
                        name@,
                        p.html@,
                    )
                },
                Ok(None) => {
                    &&& !spec_pending(
                        old(self).spec_styles().sources(),
                        old(self).spec_styles().cache(),
                        name@,
                    )
                    &&& final(self).spec_styles().cache() == old(self).spec_styles().cache()
                },
                Err(e) => {
                    &&& spec_pending(
                        old(self).spec_styles().sources(),
                        old(self).spec_styles().cache(),
                        name@,
                    )
                    &&& spec_processed(name@, compiled@, old(self).spec_ctx().dirs.output_dir@)
                        is None
                    &&& e@ == BuildErrorView::StyleCompile(name@)
                    &&& final(self).spec_styles().cache() == old(self).spec_styles().cache()
                },
            },
    {
        self.styles.store_compiled(name, compiled, self.ctx.dirs.output_dir.as_str())
    }

    /// The pages of each folder of `dirs`, each with the default template of
    /// its folder.
    pub fn plan(&self, dirs: Vec<FolderData>) -> (r: Vec<Vec<(String, String)>>)
        ensures
            r.len() == dirs.len(),
            forall|i: int|
                0 <= i < dirs.len() ==> pairs_view((#[trigger] r[i])@) == spec_page_jobs(dirs[i]@),
    {
        let pipeline = LoadDir.parallel();
        match pipeline.process(dirs) {
            Ok(jobs) => jobs,
            Err(_) => vstd::pervasive::unreached(),
        }
    }

    /// Renders every job of every folder with `engine`, and says where each
    /// rendered page is written: at the place of its page below the output
    /// root, with the extension `html`, holding the text that the engine gave
    /// for it. The first job that fails, in the order of the folders and of
    /// the jobs in them, fails the whole with its error. Pages whose places
    /// differ in the extension only get the same output path: each gets its
    /// file, in the order of the jobs, and `first_collision` finds them.
    pub fn render_all<E: Fn(String, tera::Context) -> Result<String, String>>(
        &self,
        engine: E,
        jobs: Vec<Vec<RenderJob>>,
    ) -> (r: Result<Vec<Vec<SaveFileParams>>, BuildError>)
        requires
            spec_engine_takes_all(engine, jobs@),
        ensures
            match r {
                Ok(files) => {
                    &&& files.len() == jobs.len()
                    &&& forall|i: int|
                        0 <= i < jobs.len() ==> (#[trigger] files[i]).len() == jobs[i].len()
                    &&& forall|i: int, k: int|
                        0 <= i < jobs.len() && 0 <= k < jobs[i].len() ==> spec_job_outcome(
                            engine,
                            self.spec_ctx().dirs.content_dir@,
                            self.spec_ctx().dirs.output_dir@,
                            #[trigger] jobs[i][k],
                            Ok(files[i][k]),
                        )
                },
                Err(e) => exists|i: int, k: int| #[trigger]
                    spec_fails_at(engine, self.spec_ctx().dirs.content_dir@, jobs@, i, k, e),
            },
    {
        let render = RenderPage { engine, ctx: self.ctx.clone() };
        let save = SaveOutput { out_dir: self.ctx.dirs.output_dir.clone(), extension: OUTPUT_EXTENSION };
        let pipeline = render.chain(save).parallel().parallel();
        let ghost content_dir = self.spec_ctx().dirs.content_dir@;
        let ghost out_dir = self.spec_ctx().dirs.output_dir@;
        proof {
            let page = pipeline.0.0;
            assert(page.0.engine == engine);
            assert forall|i: int| 0 <= i < jobs.len() implies pipeline.0.accepts(
                #[trigger] jobs[i],
            ) by {
                assert forall|k: int| 0 <= k < jobs[i].len() implies page.accepts(
                    #[trigger] jobs[i][k],
                ) by {
                    assert(spec_engine_takes(engine, jobs[i][k]));
                }
            }
        }
        let result = pipeline.process(jobs);
        proof {
            let page = pipeline.0.0;
            let ghost outcome = result;
            match outcome {
                Ok(files) => {
                    assert forall|i: int, k: int|
                        0 <= i < jobs.len() && 0 <= k < jobs[i].len() implies spec_job_outcome(
                        engine,
                        content_dir,
                        out_dir,
                        #[trigger] jobs[i][k],
                        Ok(files[i][k]),
                    ) by {
                        assert(pipeline.0.outcome(jobs[i], Ok(files[i])));
                        assert(page.outcome(jobs[i][k], Ok(files[i][k])));
                        let mid = choose|mid: (String, String)| #[trigger]
                            page.0.outcome(jobs[i][k], Ok(mid)) && page.1.outcome(
                                mid,
                                Ok(files[i][k]),
                            );
                        assert(spec_rendered(engine, content_dir, jobs[i][k], Ok(mid)));
                        assert(files[i][k]@ == spec_output_file(out_dir, mid));
                    }
                    assert forall|i: int| 0 <= i < jobs.len() implies (#[trigger] files[i]).len()
                        == jobs[i].len() by {
                        assert(pipeline.0.outcome(jobs[i], Ok(files[i])));
                    }
                },
                Err(e) => {
                    let i = choose|i: int|
                        {
                            &&& 0 <= i < jobs.len()
                            &&& #[trigger] pipeline.0.outcome(jobs[i], Err(e))
                            &&& forall|j: int|
                                0 <= j < i ==> may_succeed(&pipeline.0, #[trigger] jobs[j])
                        };
                    let k = choose|k: int|
                        {
                            &&& 0 <= k < jobs[i].len()
                            &&& #[trigger] page.outcome(jobs[i][k], Err(e))
                            &&& forall|j: int|
                                0 <= j < k ==> may_succeed(&page, #[trigger] jobs[i][j])
                        };
                    assert(spec_rendered(engine, content_dir, jobs[i][k], Err(e)));
                    assert forall|i2: int, k2: int|
                        0 <= i2 < jobs.len() && 0 <= k2 < jobs[i2].len() && spec_before(
                            i2,
                            k2,
                            i,
                            k,
                        ) implies spec_job_may_succeed(
                        engine,
                        content_dir,
                        #[trigger] jobs[i2][k2],
                    ) by {
                        if i2 < i {
                            assert(may_succeed(&pipeline.0, jobs[i2]));
                            let out = choose|out: Vec<SaveFileParams>| #[trigger]
                                pipeline.0.outcome(jobs[i2], Ok(out));
                            assert(page.outcome(jobs[i2][k2], Ok(out[k2])));
                            let mid = choose|mid: (String, String)| #[trigger]
                                page.0.outcome(jobs[i2][k2], Ok(mid)) && page.1.outcome(
                                    mid,
                                    Ok(out[k2]),
                                );
                            assert(spec_rendered(engine, content_dir, jobs[i2][k2], Ok(mid)));
                        } else {
                            assert(may_succeed(&page, jobs[i][k2]));
                            let file = choose|file: SaveFileParams| #[trigger]
                                page.outcome(jobs[i][k2], Ok(file));
                            let mid = choose|mid: (String, String)| #[trigger]
                                page.0.outcome(jobs[i][k2], Ok(mid)) && page.1.outcome(
                                    mid,
                                    Ok(file),
                                );
                            assert(spec_rendered(engine, content_dir, jobs[i][k2], Ok(mid)));
                        }
                    }
                    assert(spec_fails_at(engine, content_dir, jobs@, i, k, e));
                },
            }
        }
        result
    }
}

} // verus!
