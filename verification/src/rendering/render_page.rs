//! Rendering one page: which template and stylesheet it gets, what its
//! template is handed, and where its output goes. The template engine is a
//! function that the caller brings: it is handed the identifier of a template
//! and a rendering context, and answers with the rendered text or with the
//! message of its failure.

use vstd::prelude::*;
use vstd::string::*;
use crate::context::BuildContext;
use crate::data::page::Page;
use crate::error::BuildError;
use crate::error::BuildErrorView;
use crate::path::spec_strip_prefix;
use crate::path::strip_prefix;
use crate::pipeline::ProcessingStep;
use crate::rendering::template::context_entries;
use crate::rendering::template::insert_data;
use crate::rendering::template::insert_text;
use crate::rendering::template::new_context;
use crate::rendering::template::value_entry;
use crate::rendering::template::ContextValue;

verus! {

/// The key under which a template finds the fields of a page of data.
pub const DATA_KEY: &'static str = "data";

/// The key under which a template finds the text of a page of text.
pub const CONTENT_KEY: &'static str = "content";

/// The key under which a template finds the style embed fragment.
pub const STYLE_KEY: &'static str = "style";

/// The template that renders a page: the one that the page names, else the
/// default of its folder.
pub open spec fn spec_template_name(own: Option<Seq<char>>, default_template: Seq<char>) -> Seq<
    char,
> {
    match own {
        Some(t) => t,
        None => default_template,
    }
}

/// The logical name of the stylesheet of a page: the name of its template.
pub open spec fn spec_style_name(own: Option<Seq<char>>, default_template: Seq<char>) -> Seq<char> {
    spec_template_name(own, default_template)
}

/// The identifier under which the template engine knows the template `name`.
pub open spec fn spec_template_file(name: Seq<char>) -> Seq<char> {
    name + ".html"@
}

/// Whether `entries` are those of the rendering context of `page` with the
/// style fragment `style`: the text of a page of text under the content key,
/// the fields of a page of data under the data key, the fragment under the
/// style key, and nothing else.
pub open spec fn spec_is_context(
    page: Page,
    style: Seq<char>,
    entries: Map<Seq<char>, ContextValue>,
) -> bool {
    match page {
        Page::Content(text) => entries == map![
            CONTENT_KEY@ => ContextValue::Text(text@),
            STYLE_KEY@ => ContextValue::Text(style),
        ],
        Page::Data(data) => entries == map![
            DATA_KEY@ => value_entry(data.data),
            STYLE_KEY@ => ContextValue::Text(style),
        ],
    }
}

/// What becomes of a rendered page at `page_path`: a failed rendering fails
/// the page; a page outside the content root fails with its path; otherwise
/// the result is the place of the page below the content root, and its text.
pub open spec fn spec_finish(
    page_path: Seq<char>,
    content_dir: Seq<char>,
    rendered: Result<Seq<char>, BuildErrorView>,
) -> Result<(Seq<char>, Seq<char>), BuildErrorView> {
    match rendered {
        Err(e) => Err(e),
        Ok(html) => match spec_strip_prefix(page_path, content_dir) {
            Some(rel) => Ok((rel, html)),
            None => Err(BuildErrorView::Io(page_path)),
        },
    }
}

/// One page to render, with all that rendering needs of it.
#[derive(Debug)]
pub struct RenderJob {
    /// The path of the page file.
    pub page_path: String,
    /// The default template of the folder of the page.
    pub default_template: String,
    /// The page, loaded.
    pub page: Page,
    /// The style embed fragment for the style name of the page.
    pub style_embed: String,
}

/// Whether `file` and `context` are what the engine is handed for `job`: the
/// identifier of the template of the page, and the context of the page.
pub open spec fn spec_request(job: RenderJob, file: String, context: tera::Context) -> bool {
    &&& file@ == spec_template_file(
        spec_template_name(job.page.spec_template(), job.default_template@),
    )
    &&& spec_is_context(job.page, job.style_embed@, context_entries(context))
}

/// Whether `engine` may be called with what it is handed for `job`.
pub open spec fn spec_engine_takes<E: Fn(String, tera::Context) -> Result<String, String>>(
    engine: E,
    job: RenderJob,
) -> bool {
    forall|file: String, context: tera::Context|
        spec_request(job, file, context) ==> #[trigger] engine.requires((file, context))
}

/// Whether `answer` is what `engine` may give when it is handed what it is
/// handed for `job`.
pub open spec fn spec_engine_gave<E: Fn(String, tera::Context) -> Result<String, String>>(
    engine: E,
    job: RenderJob,
    answer: Result<String, String>,
) -> bool {
    exists|file: String, context: tera::Context|
        spec_request(job, file, context) && #[trigger] engine.ensures((file, context), answer)
}

/// The answer of an engine as a rendering: its text, or its message as the
/// error of a template.
pub open spec fn spec_answer_view(answer: Result<String, String>) -> Result<
    Seq<char>,
    BuildErrorView,
> {
    match answer {
        Ok(html) => Ok(html@),
        Err(message) => Err(BuildErrorView::Template(message@)),
    }
}

/// A rendering as text.
pub open spec fn spec_rendered_view(rendered: Result<String, BuildError>) -> Result<
    Seq<char>,
    BuildErrorView,
> {
    match rendered {
        Ok(html) => Ok(html@),
        Err(e) => Err(e@),
    }
}

/// The result of rendering a page as text.
pub open spec fn spec_outcome_view(outcome: Result<(String, String), BuildError>) -> Result<
    (Seq<char>, Seq<char>),
    BuildErrorView,
> {
    match outcome {
        Ok((rel, html)) => Ok((rel@, html@)),
        Err(e) => Err(e@),
    }
}

/// Whether `outcome` is what rendering `job` with `engine` may give: what
/// becomes of an answer that the engine may give for the job.
pub open spec fn spec_rendered<E: Fn(String, tera::Context) -> Result<String, String>>(
    engine: E,
    content_dir: Seq<char>,
    job: RenderJob,
    outcome: Result<(String, String), BuildError>,
) -> bool {
    exists|answer: Result<String, String>| #[trigger]
        spec_engine_gave(engine, job, answer) && spec_outcome_view(outcome) == spec_finish(
            job.page_path@,
            content_dir,
            spec_answer_view(answer),
        )
}

/// Whether `engine` answers by what it is handed: two calls with the same
/// identifier and with contexts that hold the same give the same text, or the
/// same message.
pub open spec fn spec_engine_is_function<E: Fn(String, tera::Context) -> Result<String, String>>(
    engine: E,
) -> bool {
    forall|
        file: String,
        context: tera::Context,
        answer: Result<String, String>,
        file2: String,
        context2: tera::Context,
        answer2: Result<String, String>,
    |
        #[trigger] engine.ensures((file, context), answer) && #[trigger] engine.ensures(
            (file2, context2),
            answer2,
        ) && file@ == file2@ && context_entries(context) == context_entries(context2)
            ==> spec_answer_view(answer) == spec_answer_view(answer2)
}

/// The step that renders a page through a template engine.
pub struct RenderPage<E> {
    pub engine: E,
    pub ctx: BuildContext,
}

/// The name of the template that renders `page`.
pub fn template_name(page: &Page, default_template: &str) -> (r: String)
    ensures
        r@ == spec_template_name(page.spec_template(), default_template@),
{
    match page.template() {
        Some(t) => t.to_owned(),
        None => default_template.to_owned(),
    }
}

/// The logical name of the stylesheet of `page`.
pub fn style_name(page: &Page, default_template: &str) -> (r: String)
    ensures
        r@ == spec_style_name(page.spec_template(), default_template@),
{
    template_name(page, default_template)
}

/// The identifier of the template `name` for the template engine.
pub fn template_file(name: &str) -> (r: String)
    ensures
        r@ == spec_template_file(name@),
{
    let mut file = name.to_owned();
    file.append(".html");
    file
}

/// The rendering context of `page` with the style fragment `style_embed`.
pub fn context(page: &Page, style_embed: &str) -> (r: tera::Context)
    ensures
        spec_is_context(*page, style_embed@, context_entries(r)),
{
    let mut context = new_context();
    match page {
        Page::Data(data) => {
            insert_data(&mut context, DATA_KEY, &data.data);
        },
        Page::Content(content) => {
            insert_text(&mut context, CONTENT_KEY, content.as_str());
        },
    }
    insert_text(&mut context, STYLE_KEY, style_embed);
    context
}

/// What becomes of the page at `page_path` below the content root
/// `content_dir` once the template engine has answered with `rendered`.
pub fn finish(page_path: &str, content_dir: &str, rendered: Result<String, BuildError>) -> (r: Result<
    (String, String),
    BuildError,
>)
    ensures
        spec_outcome_view(r) == spec_finish(page_path@, content_dir@, spec_rendered_view(rendered)),
{
    match rendered {
        Err(e) => Err(e),
        Ok(html) => match strip_prefix(page_path, content_dir) {
            Some(rel) => Ok((rel.to_owned(), html)),
            None => Err(BuildError::Io(page_path.to_owned())),
        },
    }
}

impl<E: Fn(String, tera::Context) -> Result<String, String>> RenderPage<E> {
    /// Renders the page of `job`: the engine is handed the identifier of the
    /// template that the page names, else of the default of its folder, and
    /// the context of the page with the style fragment. The result is the
    /// place of the page below the content root and the text that the engine
    /// gave. It fails where the engine fails, with its message as the error
    /// of a template, and where the page does not lie below the content root,
    /// with the path of the page.
    pub fn render(&self, job: RenderJob) -> (r: Result<(String, String), BuildError>)
        requires
            spec_engine_takes(self.engine, job),
        ensures
            spec_rendered(self.engine, self.ctx.dirs.content_dir@, job, r),
    {
        let name = template_name(&job.page, job.default_template.as_str());
        let file = template_file(name.as_str());
        let context = context(&job.page, job.style_embed.as_str());
        assert(spec_request(job, file, context));
        let answer = (self.engine)(file, context);
        assert(spec_engine_gave(self.engine, job, answer));
        let rendered = match answer {
            Ok(html) => Ok(html),
            Err(message) => Err(BuildError::Template(message)),
        };
        assert(spec_rendered_view(rendered) == spec_answer_view(answer));
        finish(job.page_path.as_str(), self.ctx.dirs.content_dir.as_str(), rendered)
    }
}

impl<E: Fn(String, tera::Context) -> Result<String, String>> ProcessingStep for RenderPage<E> {
    type Input = RenderJob;

    type Output = (String, String);

    /// The engine may be called with what it is handed for the job.
    open spec fn accepts(&self, input: Self::Input) -> bool {
        spec_engine_takes(self.engine, input)
    }

    /// What becomes of an answer that the engine may give for the job.
    open spec fn outcome(&self, input: Self::Input, result: Result<Self::Output, BuildError>) -> bool {
        spec_rendered(self.engine, self.ctx.dirs.content_dir@, input, result)
    }

    fn process(&self, input: Self::Input) -> (r: Result<Self::Output, BuildError>) {
        self.render(input)
    }
}

/// A page is rendered below the content root or not at all: a result lies at
/// the place of the page below the content root, and a page outside the
/// content root fails with its path unless the engine failed first.
pub proof fn lemma_rendered_place<E: Fn(String, tera::Context) -> Result<String, String>>(
    engine: E,
    content_dir: Seq<char>,
    job: RenderJob,
    outcome: Result<(String, String), BuildError>,
)
    requires
        spec_rendered(engine, content_dir, job, outcome),
    ensures
        match outcome {
            Ok((rel, html)) => spec_strip_prefix(job.page_path@, content_dir) == Some(rel@),
            Err(e) => e is Template || (spec_strip_prefix(job.page_path@, content_dir) is None
                && e@ == BuildErrorView::Io(job.page_path@)),
        },
{
}

/// With an engine that answers by what it is handed, rendering the same job
/// again gives the same: the same place and text, or the same error.
pub proof fn lemma_render_repeats<E: Fn(String, tera::Context) -> Result<String, String>>(
    engine: E,
    content_dir: Seq<char>,
    job: RenderJob,
    first: Result<(String, String), BuildError>,
    second: Result<(String, String), BuildError>,
)
    requires
        spec_engine_is_function(engine),
        spec_rendered(engine, content_dir, job, first),
        spec_rendered(engine, content_dir, job, second),
    ensures
        spec_outcome_view(first) == spec_outcome_view(second),
{
    let a1 = choose|answer: Result<String, String>| #[trigger]
        spec_engine_gave(engine, job, answer) && spec_outcome_view(first) == spec_finish(
            job.page_path@,
            content_dir,
            spec_answer_view(answer),
        );
    let a2 = choose|answer: Result<String, String>| #[trigger]
        spec_engine_gave(engine, job, answer) && spec_outcome_view(second) == spec_finish(
            job.page_path@,
            content_dir,
            spec_answer_view(answer),
        );
    let (f1, c1) = choose|file: String, context: tera::Context|
        spec_request(job, file, context) && #[trigger] engine.ensures((file, context), a1);
    let (f2, c2) = choose|file: String, context: tera::Context|
        spec_request(job, file, context) && #[trigger] engine.ensures((file, context), a2);
    assert(context_entries(c1) == context_entries(c2));
    assert(spec_answer_view(a1) == spec_answer_view(a2));
}

} // verus!
