//! Loading a page: the extension of its file decides whether its content is
//! structured data or text.

use vstd::prelude::*;
use vstd::std_specs::iter::IteratorSpec;
use crate::data::page::Page;
use crate::data::page::PageData;
use crate::error::BuildError;
use crate::path::extension;
use crate::path::spec_extension;

verus! {

/// The step that loads one page.
pub struct PageLoader;

/// The extension of the files that hold structured data.
pub const DATA_EXTENSION: &'static str = "toml";

/// `c` in lower case where it is an ASCII capital, else `c` itself.
pub open spec fn ascii_lower(c: char) -> char {
    if 'A' <= c && c <= 'Z' {
        ((c as u8) + 32) as char
    } else {
        c
    }
}

/// Two texts that differ at most in the case of their ASCII letters.
pub open spec fn spec_eq_ignore_ascii_case(a: Seq<char>, b: Seq<char>) -> bool {
    &&& a.len() == b.len()
    &&& forall|i: int| 0 <= i < a.len() ==> ascii_lower(#[trigger] a[i]) == ascii_lower(b[i])
}

/// Whether the file at `path` holds structured data: it has the extension of
/// structured data, in any mix of upper and lower case.
pub open spec fn spec_is_data_path(path: Seq<char>) -> bool {
    match spec_extension(path) {
        Some(e) => spec_eq_ignore_ascii_case(e, DATA_EXTENSION@),
        None => false,
    }
}

/// `c` in lower case where it is an ASCII capital.
pub fn to_ascii_lower(c: char) -> (r: char)
    ensures
        r == ascii_lower(c),
{
    if 'A' <= c && c <= 'Z' {
        ((c as u8) + 32) as char
    } else {
        c
    }
}

/// Whether `a` and `b` differ at most in the case of their ASCII letters.
pub fn eq_ignore_ascii_case(a: &str, b: &str) -> (r: bool)
    ensures
        r == spec_eq_ignore_ascii_case(a@, b@),
{
    let n: usize = a.unicode_len();
    if n != b.unicode_len() {
        return false;
    }
    broadcast use vstd::string::group_string_axioms;

    let mut same: bool = true;
    let mut i: usize = 0;
    let mut others = b.chars();
    for c in it: a.chars()
        invariant
            n == a@.len(),
            n == b@.len(),
            it.seq() == a@,
            i == it.index(),
            others.remaining() == b@.skip(i as int),
            same <==> forall|j: int| 0 <= j < i ==> ascii_lower(#[trigger] a@[j]) == ascii_lower(b@[j]),
    {
        let d = others.next();
        assert(d == Some(b@[i as int]));
        assert(b@.skip(i as int).drop_first() =~= b@.skip(i + 1));
        if to_ascii_lower(c) != to_ascii_lower(d.unwrap()) {
            same = false;
        }
        i = i + 1;
    }
    same
}

/// Whether the file at `path` holds structured data.
pub fn is_data_path(path: &str) -> (r: bool)
    ensures
        r == spec_is_data_path(path@),
{
    match extension(path) {
        Some(e) => eq_ignore_ascii_case(e, DATA_EXTENSION),
        None => false,
    }
}

/// Loads the page at `path` from the text `content` of its file. A file with
/// the extension of structured data is handed to `parse`, and the page is the
/// data that `parse` gives, or fails with its error. Any other file, with
/// another extension or none, is a page of text: `content` as it is, and
/// `parse` is not called.
pub fn load_page<F>(path: &str, content: String, parse: F) -> (r: Result<Page, BuildError>) where
    F: FnOnce(String) -> Result<PageData, BuildError>,

    requires
        spec_is_data_path(path@) ==> parse.requires((content,)),
    ensures
        match r {
            Ok(Page::Data(data)) => spec_is_data_path(path@) && parse.ensures(
                (content,),
                Ok(data),
            ),
            Ok(Page::Content(text)) => !spec_is_data_path(path@) && text == content,
            Err(e) => spec_is_data_path(path@) && parse.ensures((content,), Err(e)),
        },
{
    if is_data_path(path) {
        match parse(content) {
            Ok(data) => Ok(Page::Data(data)),
            Err(e) => Err(e),
        }
    } else {
        Ok(Page::Content(content))
    }
}

} // verus!
