//! The stylesheet registry: stylesheet sources by logical name, the embed
//! fragment of each one that has been compiled, and the rule that decides
//! whether a compiled stylesheet is embedded inline or linked.

use vstd::prelude::*;
use vstd::hash_map::StringHashMap;
use vstd::string::*;
use vstd::utf8::decode_utf8;
use vstd::utf8::encode_utf8;
use vstd::utf8::valid_utf8;
use crate::common::save_file::SaveFileParams;
use crate::data::entry::walk_view;
use crate::data::entry::WalkEntry;
use crate::data::entry::WalkEntryView;
use crate::error::BuildError;
use crate::error::BuildErrorView;
use crate::path::file_stem;
use crate::path::has_file_name;
use crate::path::join;
use crate::path::last_index_of;
use crate::path::lemma_file_name_is_component;
use crate::path::lemma_last_index_of;
use crate::path::lemma_strip_prefix_of_join;
use crate::path::parent;
use crate::path::spec_file_name;
use crate::path::spec_file_stem;
use crate::path::spec_has_file_name;
use crate::path::spec_join;
use crate::path::spec_parent;
use crate::path::spec_strip_prefix;
use crate::path::spec_with_extension;
use crate::path::strip_prefix;

verus! {

/// The logical name of the stylesheet that every page gets.
pub const DEFAULT_SHEET_NAME: &'static str = "style";

/// The size in bytes from which a compiled stylesheet is linked, not embedded.
pub const EMBED_THRESHOLD: usize = 512;

/// The logical name of the stylesheet at `path`, which lies at `rel` below the
/// styles root: `rel` without the extension of its last component.
pub open spec fn spec_logical_name(rel: Seq<char>, path: Seq<char>) -> Seq<char> {
    let dir = match spec_parent(rel) {
        Some(d) => d,
        None => Seq::empty(),
    };
    spec_join(dir, spec_file_stem(path))
}

/// The index that a walk through the styles root gives: each file with a file
/// name under the logical name of its place below `base`, a later file
/// replacing an earlier one of the same name. `Err` holds the path of the
/// first file that does not lie below `base`.
pub open spec fn spec_index(base: Seq<char>, entries: Seq<WalkEntryView>) -> Result<
    Map<Seq<char>, Seq<char>>,
    Seq<char>,
>
    decreases entries.len(),
{
    if entries.len() == 0 {
        Ok(Map::empty())
    } else {
        let last = entries.last();
        match spec_index(base, entries.drop_last()) {
            Err(p) => Err(p),
            Ok(m) => if !last.is_file {
                Ok(m)
            } else {
                match spec_strip_prefix(last.path, base) {
                    None => Err(last.path),
                    Some(rel) => if spec_has_file_name(last.path) {
                        Ok(m.insert(spec_logical_name(rel, last.path), last.path))
                    } else {
                        Ok(m)
                    },
                }
            },
        }
    }
}

/// The fragment that embeds the stylesheet text `css` in a page.
pub open spec fn spec_inline_fragment(css: Seq<char>) -> Seq<char> {
    "<style type=\"text/css\">"@ + css + "</style>"@
}

/// The fragment that links the stylesheet written for the logical name `name`.
pub open spec fn spec_link_fragment(name: Seq<char>) -> Seq<char> {
    "<link rel=\"stylesheet\" href=\"/"@ + name + ".css\">"@
}

/// Where the stylesheet of the logical name `name` is written when it is
/// linked: under the output root, at `name` with `.css` behind it, which is
/// the file that its link names.
pub open spec fn spec_css_path(out_dir: Seq<char>, name: Seq<char>) -> Seq<char> {
    spec_join(out_dir, name) + ".css"@
}

/// A compiled stylesheet as it goes into a page, and the file that has to be
/// written for it.
#[derive(Debug)]
pub struct ProcessedStyle {
    /// The embed fragment: a `<style>` element or a `<link>` reference.
    pub html: String,
    /// The file that the `<link>` refers to; `None` for a `<style>` element.
    pub file: Option<SaveFileParams>,
}

/// What the embed policy makes of the compiled stylesheet `compiled` of the
/// logical name `name`: below the threshold a `<style>` element that holds the
/// compiled text, and no file; from the threshold on a `<link>` reference, and
/// the file under `out_dir` that holds the compiled bytes. `None` where the
/// stylesheet is below the threshold and is not UTF-8.
pub open spec fn spec_processed(name: Seq<char>, compiled: Seq<u8>, out_dir: Seq<char>) -> Option<
    (Seq<char>, Option<(Seq<char>, Seq<u8>)>),
> {
    if compiled.len() < EMBED_THRESHOLD {
        if valid_utf8(compiled) {
            Some((spec_inline_fragment(decode_utf8(compiled)), None))
        } else {
            None
        }
    } else {
        Some((spec_link_fragment(name), Some((spec_css_path(out_dir, name), compiled))))
    }
}

impl ProcessedStyle {
    /// The fragment and the file, as text and bytes.
    pub open spec fn parts(&self) -> (Seq<char>, Option<(Seq<char>, Seq<u8>)>) {
        (
            self.html@,
            match self.file {
                Some(f) => Some((f.path@, f.contents@)),
                None => None,
            },
        )
    }
}

/// What the registry knows of a logical name.
#[derive(Debug)]
pub enum StyleState {
    /// The stylesheet has been compiled: its embed fragment.
    Cached(String),
    /// The stylesheet has a source that has not been compiled yet: its path.
    Source(String),
    /// No stylesheet has this name.
    Absent,
}

/// The answer to a request for the styles of a page.
#[derive(Debug)]
pub enum StyleEmbed {
    /// Everything needed has been compiled: the base fragment, then the
    /// fragment of the requested name, each empty where absent.
    Ready(String),
    /// The stylesheet `name` has to be compiled from `source` and handed to
    /// `Stylesheets::store_compiled` before the request can be answered.
    Compile { name: String, source: String },
}

/// The stylesheet sources under the styles root by logical name, and the embed
/// fragments of those compiled so far.
pub struct Stylesheets {
    page_styles: StringHashMap<String>,
    processed_styles: StringHashMap<String>,
}

/// Converts compiled stylesheet bytes into text with `String::from_utf8`. The
/// result is `Ok` exactly for well-formed UTF-8, and then holds the characters
/// that the bytes encode; the error is told only by its presence.
#[verifier::external_body]
fn text_from_utf8(bytes: Vec<u8>) -> (r: Option<String>)
    ensures
        r is Some <==> valid_utf8(bytes@),
        r matches Some(s) ==> s@ == decode_utf8(bytes@),
{
    String::from_utf8(bytes).ok()
}

/// The fragment that `name` contributes once nothing is left to compile: its
/// cached fragment, or nothing.
pub open spec fn spec_fragment(cache: Map<Seq<char>, Seq<char>>, name: Seq<char>) -> Seq<char> {
    if cache.contains_key(name) {
        cache[name]
    } else {
        Seq::empty()
    }
}

/// Whether `name` still has to be compiled: it has a source and no cached
/// fragment.
pub open spec fn spec_pending(
    sources: Map<Seq<char>, Seq<char>>,
    cache: Map<Seq<char>, Seq<char>>,
    name: Seq<char>,
) -> bool {
    sources.contains_key(name) && !cache.contains_key(name)
}

/// The cache after the fragment `html` of `name` has been handed in: a
/// pending name gets `html`; for any other name nothing changes.
pub open spec fn spec_store(
    sources: Map<Seq<char>, Seq<char>>,
    cache: Map<Seq<char>, Seq<char>>,
    name: Seq<char>,
    html: Seq<char>,
) -> Map<Seq<char>, Seq<char>> {
    if spec_pending(sources, cache, name) {
        cache.insert(name, html)
    } else {
        cache
    }
}

/// Whether every name with a fragment in `cache` has a source in `sources`.
pub open spec fn spec_cache_is_valid(
    sources: Map<Seq<char>, Seq<char>>,
    cache: Map<Seq<char>, Seq<char>>,
) -> bool {
    forall|name: Seq<char>| cache.contains_key(name) ==> sources.contains_key(name)
}

/// The embed fragment that a page asking for `name` gets once nothing is left
/// to compile: the base fragment, then that of `name`.
pub open spec fn spec_embed(cache: Map<Seq<char>, Seq<char>>, name: Seq<char>) -> Seq<char> {
    spec_fragment(cache, DEFAULT_SHEET_NAME@) + spec_fragment(cache, name)
}

/// Whether `answer` is the answer to a page that asks for the stylesheet
/// `name`: while the base stylesheet or `name` is pending, the one to compile
/// with its source, the base stylesheet first; once neither is, the embed
/// fragment.
pub open spec fn spec_answers(
    sources: Map<Seq<char>, Seq<char>>,
    cache: Map<Seq<char>, Seq<char>>,
    name: Seq<char>,
    answer: StyleEmbed,
) -> bool {
    match answer {
        StyleEmbed::Ready(html) => {
            &&& !spec_pending(sources, cache, DEFAULT_SHEET_NAME@)
            &&& !spec_pending(sources, cache, name)
            &&& html@ == spec_embed(cache, name)
        },
        StyleEmbed::Compile { name: wanted, source } => {
            &&& spec_pending(sources, cache, wanted@)
            &&& source@ == sources[wanted@]
            &&& if spec_pending(sources, cache, DEFAULT_SHEET_NAME@) {
                wanted@ == DEFAULT_SHEET_NAME@
            } else {
                wanted@ == name
            }
        },
    }
}

impl Stylesheets {
    /// The source path of each logical name.
    pub closed spec fn sources(&self) -> Map<Seq<char>, Seq<char>> {
        self.page_styles@.map_values(|s: String| s@)
    }

    /// The embed fragment of each logical name compiled so far.
    pub closed spec fn cache(&self) -> Map<Seq<char>, Seq<char>> {
        self.processed_styles@.map_values(|s: String| s@)
    }

    /// What the registry knows of `name`: its cached fragment if it has been
    /// compiled, else its source if it has one.
    pub fn get_processed_style(&self, name: &str) -> (r: StyleState)
        ensures
            match r {
                StyleState::Cached(html) => self.cache().contains_key(name@) && html@
                    == self.cache()[name@],
                StyleState::Source(path) => !self.cache().contains_key(name@)
                    && self.sources().contains_key(name@) && path@ == self.sources()[name@],
                StyleState::Absent => !self.cache().contains_key(name@)
                    && !self.sources().contains_key(name@),
            },
    {
        match self.processed_styles.get(name) {
            Some(html) => StyleState::Cached(html.clone()),
            None => match self.page_styles.get(name) {
                Some(path) => StyleState::Source(path.clone()),
                None => StyleState::Absent,
            },
        }
    }

    /// The invariant of the registry: only a stylesheet that has a source has
    /// a fragment.
    pub open spec fn is_valid(&self) -> bool {
        spec_cache_is_valid(self.sources(), self.cache())
    }

    /// Takes in the compiled stylesheet of `name`, if `name` is pending: the
    /// embed policy decides, the fragment is cached and, for a linked
    /// stylesheet, the file to write is handed back. A name that is not
    /// pending, because it has a fragment already or because it has no
    /// source, is refused with `None`, and nothing changes: a stylesheet is
    /// compiled into the cache once, and only a stylesheet of the index.
    pub fn store_compiled(&mut self, name: &str, compiled: Vec<u8>, out_dir: &str) -> (r: Result<
        Option<ProcessedStyle>,
        BuildError,
    >)
        ensures
            final(self).sources() == old(self).sources(),
            old(self).is_valid() ==> final(self).is_valid(),
            match r {
                Ok(Some(p)) => {
                    &&& spec_pending(old(self).sources(), old(self).cache(), name@)
                    &&& spec_processed(name@, compiled@, out_dir@) == Some(p.parts())
                    &&& final(self).cache() == old(self).cache().insert(name@, p.html@)
                },
                Ok(None) => {
                    &&& !spec_pending(old(self).sources(), old(self).cache(), name@)
                    &&& final(self).cache() == old(self).cache()
                },
                Err(e) => {
                    &&& spec_pending(old(self).sources(), old(self).cache(), name@)
                    &&& spec_processed(name@, compiled@, out_dir@) is None
                    &&& e@ == BuildErrorView::StyleCompile(name@)
                    &&& final(self).cache() == old(self).cache()
                },
            },
    {
        match self.get_processed_style(name) {
            StyleState::Source(_) => {},
            _ => {
                return Ok(None);
            },
        }
        let processed = process_style(name, compiled, out_dir)?;
        let ghost before = self.processed_styles@;
        self.processed_styles.insert(name.to_owned(), processed.html.clone());
        proof {
            assert(self.processed_styles@.map_values(|s: String| s@) =~= before.map_values(
                |s: String| s@,
            ).insert(name@, processed.html@));
        }
        Ok(Some(processed))
    }

    /// The embed fragment for a page that asks for the stylesheet `name`: the
    /// fragment of the base stylesheet, then that of `name`. While one of the
    /// two has a source that is not compiled yet, the answer names it, the
    /// base stylesheet first.
    pub fn get_style_embed(&self, name: &str) -> (r: StyleEmbed)
        ensures
            spec_answers(self.sources(), self.cache(), name@, r),
    {
        let mut html = String::new();
        match self.get_processed_style(DEFAULT_SHEET_NAME) {
            StyleState::Cached(base) => {
                html.append(base.as_str());
            },
            StyleState::Source(source) => {
                return StyleEmbed::Compile { name: DEFAULT_SHEET_NAME.to_owned(), source };
            },
            StyleState::Absent => {},
        }
        assert(html@ =~= spec_fragment(self.cache(), DEFAULT_SHEET_NAME@));
        match self.get_processed_style(name) {
            StyleState::Cached(style) => {
                html.append(style.as_str());
            },
            StyleState::Source(source) => {
                return StyleEmbed::Compile { name: name.to_owned(), source };
            },
            StyleState::Absent => {
                assert(html@ + Seq::<char>::empty() =~= html@);
            },
        }
        StyleEmbed::Ready(html)
    }
}

/// Decides how the compiled stylesheet `compiled` of the logical name `name`
/// goes into a page: below the threshold as a `<style>` element that holds
/// its text, from the threshold on as a `<link>` reference together with the
/// file under `out_dir` that holds its bytes. A stylesheet below the threshold
/// that is not UTF-8 is refused, with `name` in the error.
pub fn process_style(name: &str, compiled: Vec<u8>, out_dir: &str) -> (r: Result<
    ProcessedStyle,
    BuildError,
>)
    ensures
        match r {
            Ok(p) => spec_processed(name@, compiled@, out_dir@) == Some(p.parts()),
            Err(e) => spec_processed(name@, compiled@, out_dir@) is None && e@
                == BuildErrorView::StyleCompile(name@),
        },
{
    if compiled.len() < EMBED_THRESHOLD {
        match text_from_utf8(compiled) {
            Some(css) => {
                let mut html = "<style type=\"text/css\">".to_owned();
                html.append(css.as_str());
                html.append("</style>");
                Ok(ProcessedStyle { html, file: None })
            },
            None => Err(BuildError::StyleCompile(name.to_owned())),
        }
    } else {
        let mut path = join(out_dir, name);
        path.append(".css");
        let mut html = "<link rel=\"stylesheet\" href=\"/".to_owned();
        html.append(name);
        html.append(".css\">");
        Ok(ProcessedStyle { html, file: Some(SaveFileParams { path, contents: compiled }) })
    }
}

/// The logical name of the stylesheet at `path`, which lies at `rel` below the
/// styles root.
pub fn logical_name(rel: &str, path: &str) -> (r: String)
    ensures
        r@ == spec_logical_name(rel@, path@),
{
    let stem = file_stem(path);
    match parent(rel) {
        Some(dir) => join(dir, stem),
        None => {
            let empty = rel.substring_char(0, 0);
            assert(empty@ =~= Seq::<char>::empty());
            join(empty, stem)
        },
    }
}

/// Indexes the stylesheet sources that a walk through `base_dir` found: each
/// file under the logical name of its place below `base_dir`. Fails on the
/// first file that does not lie below `base_dir`, with its path in the error.
/// Nothing is compiled yet.
pub fn load_stylesheets(base_dir: &str, entries: &Vec<WalkEntry>) -> (r: Result<Stylesheets, BuildError>)
    ensures
        match r {
            Ok(styles) => spec_index(base_dir@, walk_view(entries@)) == Ok::<
                Map<Seq<char>, Seq<char>>,
                Seq<char>,
            >(styles.sources()) && styles.cache() == Map::<Seq<char>, Seq<char>>::empty()
                && styles.is_valid(),
            Err(e) => match spec_index(base_dir@, walk_view(entries@)) {
                Err(p) => e@ == BuildErrorView::Io(p),
                Ok(_) => false,
            },
        },
{
    let mut page_styles: StringHashMap<String> = StringHashMap::new();
    let ghost all = walk_view(entries@);
    let mut i: usize = 0;
    assert(page_styles@.map_values(|s: String| s@) =~= Map::<Seq<char>, Seq<char>>::empty());
    while i < entries.len()
        invariant
            i <= entries.len(),
            all == walk_view(entries@),
            spec_index(base_dir@, all.take(i as int)) == Ok::<Map<Seq<char>, Seq<char>>, Seq<char>>(
                page_styles@.map_values(|s: String| s@),
            ),
        decreases entries.len() - i,
    {
        let entry = &entries[i];
        proof {
            assert(all.take(i + 1).drop_last() =~= all.take(i as int));
            assert(all.take(i + 1).last() == entry@);
        }
        if entry.is_file {
            let path = entry.path.as_str();
            match strip_prefix(path, base_dir) {
                Some(rel) => {
                    if has_file_name(path) {
                        let name = logical_name(rel, path);
                        let ghost before = page_styles@;
                        page_styles.insert(name, entry.path.clone());
                        proof {
                            assert(page_styles@.map_values(|s: String| s@)
                                =~= before.map_values(|s: String| s@).insert(
                                spec_logical_name(rel@, path@),
                                path@,
                            ));
                        }
                    }
                },
                None => {
                    proof {
                        lemma_index_fails(base_dir@, all, i + 1);
                    }
                    return Err(BuildError::Io(entry.path.clone()));
                },
            }
        }
        i = i + 1;
    }
    proof {
        assert(all.take(i as int) =~= all);
    }
    let processed_styles: StringHashMap<String> = StringHashMap::new();
    let styles = Stylesheets { page_styles, processed_styles };
    assert(styles.cache() =~= Map::<Seq<char>, Seq<char>>::empty());
    Ok(styles)
}

/// An index that fails on a prefix of the entries fails on all of them, on the
/// same path.
pub proof fn lemma_index_fails(base: Seq<char>, entries: Seq<WalkEntryView>, n: int)
    requires
        0 <= n <= entries.len(),
        spec_index(base, entries.take(n)) is Err,
    ensures
        spec_index(base, entries) == spec_index(base, entries.take(n)),
    decreases entries.len() - n,
{
    if n < entries.len() {
        assert(entries.take(n + 1).drop_last() =~= entries.take(n));
        lemma_index_fails(base, entries, n + 1);
    } else {
        assert(entries.take(n) =~= entries);
    }
}

/// A stylesheet is compiled into the cache once: after its fragment has been
/// handed in, it is never pending again, handing in another fragment for it
/// changes nothing, and handing in the fragment of any stylesheet leaves its
/// fragment as it is.
pub proof fn lemma_compiled_once(
    sources: Map<Seq<char>, Seq<char>>,
    cache: Map<Seq<char>, Seq<char>>,
    name: Seq<char>,
    html: Seq<char>,
    other: Seq<char>,
    other_html: Seq<char>,
)
    ensures
        !spec_pending(sources, spec_store(sources, cache, name, html), name),
        spec_store(sources, spec_store(sources, cache, name, html), name, other_html)
            == spec_store(sources, cache, name, html),
        !spec_pending(
            sources,
            spec_store(sources, spec_store(sources, cache, name, html), other, other_html),
            name,
        ),
        spec_fragment(
            spec_store(sources, spec_store(sources, cache, name, html), other, other_html),
            name,
        ) == spec_fragment(spec_store(sources, cache, name, html), name),
{
}

/// Every page that asks for a stylesheet gets the same embed fragment: once
/// the base stylesheet and `name` have nothing left to compile, handing in the
/// fragment of any stylesheet leaves both so, and leaves the embed fragment of
/// `name` as it is.
pub proof fn lemma_embed_is_stable(
    sources: Map<Seq<char>, Seq<char>>,
    cache: Map<Seq<char>, Seq<char>>,
    name: Seq<char>,
    other: Seq<char>,
    other_html: Seq<char>,
)
    requires
        !spec_pending(sources, cache, DEFAULT_SHEET_NAME@),
        !spec_pending(sources, cache, name),
    ensures
        !spec_pending(sources, spec_store(sources, cache, other, other_html), DEFAULT_SHEET_NAME@),
        !spec_pending(sources, spec_store(sources, cache, other, other_html), name),
        spec_embed(spec_store(sources, cache, other, other_html), name) == spec_embed(cache, name),
{
}

/// Handing a fragment in keeps the invariant of the registry.
pub proof fn lemma_store_keeps_valid(
    sources: Map<Seq<char>, Seq<char>>,
    cache: Map<Seq<char>, Seq<char>>,
    name: Seq<char>,
    html: Seq<char>,
)
    requires
        spec_cache_is_valid(sources, cache),
    ensures
        spec_cache_is_valid(sources, spec_store(sources, cache, name, html)),
{
}

/// The file of a linked stylesheet is the one that its link names, and lies
/// below the output root: the link refers to `/` and the text that stands
/// behind the output root in the path of the file.
pub proof fn lemma_link_names_the_file(name: Seq<char>, out_dir: Seq<char>)
    ensures
        spec_link_fragment(name) == "<link rel=\"stylesheet\" href=\"/"@ + (name + ".css"@) + "\">"@,
        spec_css_path(out_dir, name) == spec_join(out_dir, name) + ".css"@,
        name.len() > 0 && name[0] != '/' ==> spec_css_path(out_dir, name) == spec_join(
            out_dir,
            name + ".css"@,
        ),
        name.len() > 0 && name[0] != '/' ==> spec_strip_prefix(
            spec_css_path(out_dir, name),
            out_dir,
        ) == Some(name + ".css"@),
{
    reveal_strlit(".css\">");
    reveal_strlit(".css");
    reveal_strlit("\">");
    assert(".css\">"@ =~= ".css"@ + "\">"@);
    assert(spec_link_fragment(name) =~= "<link rel=\"stylesheet\" href=\"/"@ + (name + ".css"@)
        + "\">"@);
    if name.len() > 0 && name[0] != '/' {
        assert((name + ".css"@)[0] == name[0]);
        assert(spec_join(out_dir, name + ".css"@) =~= spec_join(out_dir, name) + ".css"@);
        lemma_strip_prefix_of_join(out_dir, name + ".css"@);
    }
}

/// The embed policy by size: below the threshold a stylesheet of well-formed
/// text is embedded in a `<style>` element that holds the text which its
/// bytes encode, and no file is written; from the threshold on it is linked,
/// and the file under the output root holds its bytes as they are.
pub proof fn lemma_embed_threshold(name: Seq<char>, compiled: Seq<u8>, out_dir: Seq<char>)
    ensures
        compiled.len() < EMBED_THRESHOLD && valid_utf8(compiled) ==> {
            &&& spec_processed(name, compiled, out_dir) == Some(
                (spec_inline_fragment(decode_utf8(compiled)), None::<(Seq<char>, Seq<u8>)>),
            )
            &&& encode_utf8(decode_utf8(compiled)) == compiled
        },
        compiled.len() >= EMBED_THRESHOLD ==> spec_processed(name, compiled, out_dir) == Some(
            (spec_link_fragment(name), Some((spec_css_path(out_dir, name), compiled))),
        ),
{
    if valid_utf8(compiled) {
        vstd::utf8::decode_utf8_encode_utf8(compiled);
    }
}

/// The logical name of a stylesheet is its place below the styles root with
/// the extension stripped, where no second `/` stands before its file name.
pub proof fn lemma_logical_name_strips_extension(rel: Seq<char>, path: Seq<char>)
    requires
        spec_has_file_name(rel),
        spec_file_name(path) == spec_file_name(rel),
        last_index_of(rel, '/') > 0 ==> rel[last_index_of(rel, '/') - 1] != '/',
    ensures
        spec_logical_name(rel, path) == spec_with_extension(rel, Seq::<char>::empty()),
{
    lemma_last_index_of(rel, '/');
    lemma_file_name_is_component(rel);
    lemma_file_name_is_component(path);
    let name = spec_file_name(rel);
    let sep = last_index_of(rel, '/');
    lemma_last_index_of(name, '.');
    assert(spec_file_name(name) == name);
    assert(spec_file_stem(path) == spec_file_stem(rel)) by {
        assert(spec_file_name(path) == spec_file_name(rel));
    }
    let stem = spec_file_stem(rel);
    assert(stem.len() <= name.len());
    assert(stem.len() > 0 ==> stem[0] == name[0]);
    if stem.len() > 0 {
        assert(name[0] != '/') by {
            assert(last_index_of(name, '/') == -1);
            lemma_last_index_of(name, '/');
        }
    }
    let kept = rel.subrange(0, rel.len() - name.len() + stem.len());
    if sep < 0 {
        assert(name =~= rel);
        assert(spec_parent(rel) == Some(Seq::<char>::empty()));
        assert(spec_join(Seq::<char>::empty(), stem) =~= stem);
        assert(kept =~= stem);
    } else if sep == 0 {
        assert(rel.len() > 1);
        assert(spec_parent(rel) == Some(seq!['/']));
        assert(spec_join(seq!['/'], stem) =~= seq!['/'] + stem);
        assert(kept =~= seq!['/'] + stem);
    } else {
        let dir = rel.subrange(0, sep);
        assert(spec_parent(rel) == Some(dir));
        assert(dir.last() == rel[sep - 1]);
        assert(spec_join(dir, stem) =~= dir + seq!['/'] + stem);
        assert(kept =~= dir + seq!['/'] + stem);
    }
}

} // verus!
