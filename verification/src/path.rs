//! Paths as text. A path is a sequence of characters in which `/` separates
//! the components. Nothing is normalised: `a//b`, `a/./b` and `a/b/` are three
//! different paths, and the last component of `a/b/` is empty. On the paths
//! that a walk or a listing gives, which have no empty component and end in no
//! separator, the functions here give what `std::path` gives; for the name of
//! a directory whose path ends in separators there is `last_component`.

use vstd::prelude::*;
use vstd::std_specs::iter::IteratorSpec;
use vstd::string::*;

verus! {

/// The position of the last occurrence of `c` in `s`, or `-1` where `c` does
/// not occur.
pub open spec fn last_index_of(s: Seq<char>, c: char) -> int
    decreases s.len(),
{
    if s.len() == 0 {
        -1
    } else if s.last() == c {
        s.len() - 1
    } else {
        last_index_of(s.drop_last(), c)
    }
}

/// The last component of `path`: what follows the last `/`, or all of it.
pub open spec fn spec_file_name(path: Seq<char>) -> Seq<char> {
    path.subrange(last_index_of(path, '/') + 1, path.len() as int)
}

/// The number of characters of `path` before the separators at its end.
pub open spec fn spec_trimmed_len(path: Seq<char>) -> nat
    decreases path.len(),
{
    if path.len() == 0 {
        0
    } else if path.last() != '/' {
        path.len()
    } else {
        spec_trimmed_len(path.drop_last())
    }
}

/// `path` without the separators at its end.
pub open spec fn spec_trim_separators(path: Seq<char>) -> Seq<char> {
    path.subrange(0, spec_trimmed_len(path) as int)
}

/// The last component of `path` that is not empty: the name of the directory
/// or file that `path` leads to, also where `path` ends in separators. It is
/// empty only for a path that holds nothing but separators.
pub open spec fn spec_last_component(path: Seq<char>) -> Seq<char> {
    spec_file_name(spec_trim_separators(path))
}

/// Whether the last component of `path` names a file or a directory: it is
/// neither empty nor `..`.
pub open spec fn spec_has_file_name(path: Seq<char>) -> bool {
    let name = spec_file_name(path);
    name.len() > 0 && name != seq!['.', '.']
}

/// The position, in the last component, of the dot that starts the extension,
/// or `-1` where there is no extension. A dot at the start of the name starts
/// none, and `..` has none.
pub open spec fn extension_dot(path: Seq<char>) -> int {
    let name = spec_file_name(path);
    let dot = last_index_of(name, '.');
    if dot <= 0 || name == seq!['.', '.'] {
        -1
    } else {
        dot
    }
}

/// The extension of the last component: what follows its last dot.
pub open spec fn spec_extension(path: Seq<char>) -> Option<Seq<char>> {
    let name = spec_file_name(path);
    let dot = extension_dot(path);
    if dot < 0 {
        None
    } else {
        Some(name.subrange(dot + 1, name.len() as int))
    }
}

/// The last component without its extension.
pub open spec fn spec_file_stem(path: Seq<char>) -> Seq<char> {
    let name = spec_file_name(path);
    let dot = extension_dot(path);
    if dot < 0 {
        name
    } else {
        name.subrange(0, dot)
    }
}

/// The path without its last component. The empty path and `/` have no parent.
pub open spec fn spec_parent(path: Seq<char>) -> Option<Seq<char>> {
    let sep = last_index_of(path, '/');
    if path.len() == 0 {
        None
    } else if sep < 0 {
        Some(Seq::empty())
    } else if sep == 0 {
        if path.len() == 1 {
            None
        } else {
            Some(seq!['/'])
        }
    } else {
        Some(path.subrange(0, sep))
    }
}

/// `rest` below `base`. An absolute `rest` replaces `base`; otherwise the two
/// are put together with one `/` between them, unless `base` is empty or ends
/// in one.
pub open spec fn spec_join(base: Seq<char>, rest: Seq<char>) -> Seq<char> {
    if rest.len() > 0 && rest[0] == '/' {
        rest
    } else if base.len() == 0 || base.last() == '/' {
        base + rest
    } else {
        base + seq!['/'] + rest
    }
}

/// What is left of `path` below `base`, or `None` where `path` does not lie
/// below `base`. The match ends at a component boundary: `a/bc` is not below
/// `a/b`.
pub open spec fn spec_strip_prefix(path: Seq<char>, base: Seq<char>) -> Option<Seq<char>> {
    if base.len() == 0 {
        Some(path)
    } else if !base.is_prefix_of(path) {
        None
    } else if path.len() == base.len() {
        Some(Seq::empty())
    } else if base.last() == '/' {
        Some(path.subrange(base.len() as int, path.len() as int))
    } else if path[base.len() as int] == '/' {
        Some(path.subrange(base.len() as int + 1, path.len() as int))
    } else {
        None
    }
}

/// `path` with the extension of its last component replaced by `extension`,
/// or removed where `extension` is empty. A path without a file name is left
/// as it is.
pub open spec fn spec_with_extension(path: Seq<char>, extension: Seq<char>) -> Seq<char> {
    let name = spec_file_name(path);
    let stem = spec_file_stem(path);
    let kept = path.subrange(0, path.len() - name.len() + stem.len());
    if !spec_has_file_name(path) {
        path
    } else if extension.len() == 0 {
        kept
    } else {
        kept + seq!['.'] + extension
    }
}

/// What `last_index_of` finds is an occurrence of `c`, and the last one.
pub proof fn lemma_last_index_of(s: Seq<char>, c: char)
    ensures
        -1 <= last_index_of(s, c) < s.len(),
        last_index_of(s, c) >= 0 ==> s[last_index_of(s, c)] == c,
        forall|j: int| last_index_of(s, c) < j < s.len() ==> s[j] != c,
    decreases s.len(),
{
    if s.len() > 0 && s.last() != c {
        let t = s.drop_last();
        lemma_last_index_of(t, c);
        assert forall|j: int| last_index_of(s, c) < j < s.len() implies s[j] != c by {
            if j < t.len() {
                assert(t[j] == s[j]);
            }
        }
    }
}

/// A position that holds `c` and has no `c` behind it is the last one.
pub proof fn lemma_last_index_of_unique(s: Seq<char>, c: char, i: int)
    requires
        -1 <= i < s.len(),
        i >= 0 ==> s[i] == c,
        forall|j: int| i < j < s.len() ==> s[j] != c,
    ensures
        last_index_of(s, c) == i,
{
    lemma_last_index_of(s, c);
}

/// A relative path joined below a base is found again by stripping the base.
pub proof fn lemma_strip_prefix_of_join(base: Seq<char>, rest: Seq<char>)
    requires
        rest.len() == 0 || rest[0] != '/',
    ensures
        spec_strip_prefix(spec_join(base, rest), base) == Some(rest),
{
    let joined = spec_join(base, rest);
    if base.len() == 0 {
        assert(joined =~= rest);
    } else if base.last() == '/' {
        assert(base.is_prefix_of(joined));
        if rest.len() > 0 {
            assert(joined.subrange(base.len() as int, joined.len() as int) =~= rest);
        } else {
            assert(rest =~= Seq::<char>::empty());
        }
    } else {
        assert(base.is_prefix_of(joined));
        assert(joined[base.len() as int] == '/');
        assert(joined.subrange(base.len() as int + 1, joined.len() as int) =~= rest);
    }
}

/// A single component joined below a base is the last component of the result.
pub proof fn lemma_file_name_of_join(base: Seq<char>, name: Seq<char>)
    requires
        last_index_of(name, '/') == -1,
    ensures
        spec_file_name(spec_join(base, name)) == name,
{
    lemma_last_index_of(name, '/');
    let joined = spec_join(base, name);
    if name.len() > 0 {
        assert(name[0] != '/');
    }
    if base.len() == 0 {
        assert(joined =~= name);
        assert(name.subrange(0, name.len() as int) =~= name);
    } else {
        lemma_last_index_of(base, '/');
        let cut: int = joined.len() - name.len() - 1;
        assert(joined[cut] == '/');
        assert forall|j: int| cut < j < joined.len() implies joined[j] != '/' by {
            assert(joined[j] == name[j - cut - 1]);
        }
        lemma_last_index_of_unique(joined, '/', cut);
        assert(joined.subrange(cut + 1, joined.len() as int) =~= name);
    }
}

/// What is left without the separators at the end is a start of the path, ends
/// in no separator, and is followed by separators only.
pub proof fn lemma_trimmed_len(path: Seq<char>)
    ensures
        spec_trimmed_len(path) <= path.len(),
        spec_trimmed_len(path) > 0 ==> path[spec_trimmed_len(path) - 1] != '/',
        forall|j: int| spec_trimmed_len(path) <= j < path.len() ==> path[j] == '/',
    decreases path.len(),
{
    if path.len() > 0 && path.last() == '/' {
        let t = path.drop_last();
        lemma_trimmed_len(t);
        assert forall|j: int| spec_trimmed_len(path) <= j < path.len() implies path[j] == '/' by {
            if j < t.len() {
                assert(t[j] == path[j]);
            }
        }
        if spec_trimmed_len(path) > 0 {
            assert(t[spec_trimmed_len(path) - 1] == path[spec_trimmed_len(path) - 1]);
        }
    }
}

/// A path that holds more than separators has a last component that is not
/// empty and holds no separator.
pub proof fn lemma_last_component(path: Seq<char>)
    requires
        exists|i: int| 0 <= i < path.len() && path[i] != '/',
    ensures
        spec_last_component(path).len() > 0,
        last_index_of(spec_last_component(path), '/') == -1,
{
    lemma_trimmed_len(path);
    let kept = spec_trimmed_len(path);
    let i = choose|i: int| 0 <= i < path.len() && path[i] != '/';
    assert(kept > i);
    let trimmed = spec_trim_separators(path);
    assert(trimmed.len() == kept);
    assert(trimmed.last() == path[kept - 1]);
    lemma_last_index_of(trimmed, '/');
    lemma_file_name_is_component(trimmed);
}

/// The number of characters in `s`.
pub fn char_count(s: &str) -> (n: usize)
    ensures
        n == s@.len(),
{
    s.unicode_len()
}

/// Finds the last occurrence of `c` in `s`.
pub fn find_last(s: &str, c: char) -> (r: Option<usize>)
    ensures
        match r {
            Some(i) => i as int == last_index_of(s@, c),
            None => last_index_of(s@, c) == -1,
        },
{
    let n: usize = s.unicode_len();
    let mut found: Option<usize> = None;
    let mut i: usize = 0;
    for ch in it: s.chars()
        invariant
            n == s@.len(),
            it.seq() == s@,
            i == it.index(),
            match found {
                Some(k) => k as int == last_index_of(s@.take(i as int), c),
                None => last_index_of(s@.take(i as int), c) == -1,
            },
    {
        proof {
            assert(s@.take(i + 1).drop_last() =~= s@.take(i as int));
            assert(s@.take(i + 1).last() == s@[i as int]);
        }
        if ch == c {
            found = Some(i);
        }
        i = i + 1;
    }
    proof {
        assert(s@.take(n as int) =~= s@);
    }
    found
}

/// The character at position `i` of `s`.
pub fn char_at(s: &str, i: usize) -> (c: char)
    requires
        i < s@.len(),
    ensures
        c == s@[i as int],
{
    s.get_char(i)
}

/// The last component of `path`.
pub fn file_name<'a>(path: &'a str) -> (name: &'a str)
    ensures
        name@ == spec_file_name(path@),
{
    let n: usize = path.unicode_len();
    proof {
        lemma_last_index_of(path@, '/');
    }
    match find_last(path, '/') {
        Some(i) => path.substring_char(i + 1, n),
        None => {
            assert(path@.subrange(0, n as int) =~= path@);
            path
        },
    }
}

/// `path` without the separators at its end.
pub fn trim_separators<'a>(path: &'a str) -> (r: &'a str)
    ensures
        r@ == spec_trim_separators(path@),
{
    let n: usize = path.unicode_len();
    let mut kept: usize = 0;
    let mut i: usize = 0;
    for ch in it: path.chars()
        invariant
            n == path@.len(),
            it.seq() == path@,
            i == it.index(),
            kept <= i,
            kept == spec_trimmed_len(path@.take(i as int)),
    {
        proof {
            assert(path@.take(i + 1).drop_last() =~= path@.take(i as int));
            assert(path@.take(i + 1).last() == path@[i as int]);
        }
        if ch != '/' {
            kept = i + 1;
        }
        i = i + 1;
    }
    proof {
        assert(path@.take(n as int) =~= path@);
    }
    path.substring_char(0, kept)
}

/// The last component of `path` that is not empty.
pub fn last_component<'a>(path: &'a str) -> (name: &'a str)
    ensures
        name@ == spec_last_component(path@),
{
    file_name(trim_separators(path))
}

/// Whether the last component of `path` is neither empty nor `..`.
pub fn has_file_name(path: &str) -> (r: bool)
    ensures
        r == spec_has_file_name(path@),
{
    let name = file_name(path);
    let n: usize = name.unicode_len();
    if n == 0 {
        false
    } else if n == 2 {
        let dots: bool = name.get_char(0) == '.' && name.get_char(1) == '.';
        assert(dots <==> name@ =~= seq!['.', '.']);
        !dots
    } else {
        true
    }
}

/// Where the extension of `name` starts, for a `name` without a `/`.
fn find_extension_dot(name: &str) -> (r: Option<usize>)
    requires
        last_index_of(name@, '/') == -1,
    ensures
        match r {
            Some(i) => i as int == extension_dot(name@),
            None => extension_dot(name@) == -1,
        },
{
    let n: usize = name.unicode_len();
    proof {
        lemma_last_index_of(name@, '.');
        assert(spec_file_name(name@) =~= name@);
    }
    match find_last(name, '.') {
        Some(i) => {
            if i == 0 {
                None
            } else if n == 2 && name.get_char(0) == '.' {
                assert(name@ =~= seq!['.', '.']);
                None
            } else {
                assert(name@ != seq!['.', '.']) by {
                    if name@ == seq!['.', '.'] {
                        assert(name@.len() == 2);
                        assert(name@[0] == '.');
                    }
                }
                Some(i)
            }
        },
        None => None,
    }
}

/// The last component has no `/` in it, and its own last component is itself.
pub proof fn lemma_file_name_is_component(path: Seq<char>)
    ensures
        last_index_of(spec_file_name(path), '/') == -1,
        spec_file_name(spec_file_name(path)) == spec_file_name(path),
        spec_file_name(path).len() <= path.len(),
        path.subrange(0, path.len() - spec_file_name(path).len()) + spec_file_name(path) == path,
{
    lemma_last_index_of(path, '/');
    let name = spec_file_name(path);
    lemma_last_index_of_unique(name, '/', -1);
    assert(name.subrange(0, name.len() as int) =~= name);
    assert(path.subrange(0, path.len() - name.len()) + name =~= path);
}

/// The extension of the last component of `path`.
pub fn extension<'a>(path: &'a str) -> (r: Option<&'a str>)
    ensures
        match r {
            Some(e) => spec_extension(path@) == Some(e@),
            None => spec_extension(path@) is None,
        },
{
    let name = file_name(path);
    let n: usize = name.unicode_len();
    proof {
        lemma_file_name_is_component(path@);
        lemma_last_index_of(name@, '.');
    }
    match find_extension_dot(name) {
        Some(i) => Some(name.substring_char(i + 1, n)),
        None => None,
    }
}

/// The last component of `path` without its extension.
pub fn file_stem<'a>(path: &'a str) -> (stem: &'a str)
    ensures
        stem@ == spec_file_stem(path@),
{
    let name = file_name(path);
    proof {
        lemma_file_name_is_component(path@);
        lemma_last_index_of(name@, '.');
    }
    match find_extension_dot(name) {
        Some(i) => name.substring_char(0, i),
        None => name,
    }
}

/// The path without its last component.
pub fn parent<'a>(path: &'a str) -> (r: Option<&'a str>)
    ensures
        match r {
            Some(p) => spec_parent(path@) == Some(p@),
            None => spec_parent(path@) is None,
        },
{
    let n: usize = path.unicode_len();
    proof {
        lemma_last_index_of(path@, '/');
    }
    if n == 0 {
        None
    } else {
        match find_last(path, '/') {
            None => Some(path.substring_char(0, 0)),
            Some(i) => {
                if i == 0 {
                    if n == 1 {
                        None
                    } else {
                        let root = path.substring_char(0, 1);
                        assert(root@ =~= seq!['/']);
                        Some(root)
                    }
                } else {
                    Some(path.substring_char(0, i))
                }
            },
        }
    }
}

/// Whether `path` starts at the root.
pub fn is_absolute(path: &str) -> (r: bool)
    ensures
        r == (path@.len() > 0 && path@[0] == '/'),
{
    let n: usize = path.unicode_len();
    n > 0 && path.get_char(0) == '/'
}

/// Whether `s` ends in a `/`.
pub fn ends_with_separator(s: &str) -> (r: bool)
    ensures
        r == (s@.len() > 0 && s@.last() == '/'),
{
    proof {
        lemma_last_index_of(s@, '/');
    }
    let n: usize = s.unicode_len();
    match find_last(s, '/') {
        Some(i) => i + 1 == n,
        None => false,
    }
}

/// `rest` below `base`.
pub fn join(base: &str, rest: &str) -> (r: String)
    ensures
        r@ == spec_join(base@, rest@),
{
    if is_absolute(rest) {
        rest.to_owned()
    } else {
        let mut out = base.to_owned();
        if char_count(base) > 0 && !ends_with_separator(base) {
            proof {
                reveal_strlit("/");
            }
            out.append("/");
            assert(out@ =~= base@ + seq!['/']);
        }
        out.append(rest);
        out
    }
}

/// Whether `s` starts with `prefix`.
pub fn starts_with(s: &str, prefix: &str) -> (r: bool)
    ensures
        r == prefix@.is_prefix_of(s@),
{
    let n: usize = s.unicode_len();
    let m: usize = prefix.unicode_len();
    if m > n {
        return false;
    }
    let head = s.substring_char(0, m);
    let same = text_eq(head, prefix);
    proof {
        if prefix@.is_prefix_of(s@) {
            assert(head@ =~= prefix@);
        }
    }
    same
}

/// Whether two texts hold the same characters.
pub fn text_eq(a: &str, b: &str) -> (r: bool)
    ensures
        r == (a@ == b@),
{
    broadcast use vstd::string::group_string_axioms;

    let n: usize = a.unicode_len();
    if n != b.unicode_len() {
        return false;
    }
    let mut same: bool = true;
    let mut i: usize = 0;
    let mut others = b.chars();
    assert(a@.take(0) =~= b@.take(0));
    for c in it: a.chars()
        invariant
            n == a@.len(),
            n == b@.len(),
            it.seq() == a@,
            i == it.index(),
            others.remaining() == b@.skip(i as int),
            same <==> a@.take(i as int) == b@.take(i as int),
    {
        let d = others.next();
        proof {
            assert(d == Some(b@[i as int]));
            assert(b@.skip(i as int).drop_first() =~= b@.skip(i + 1));
            assert(a@.take(i + 1) =~= a@.take(i as int).push(a@[i as int]));
            assert(b@.take(i + 1) =~= b@.take(i as int).push(b@[i as int]));
            if a@.take(i + 1) == b@.take(i + 1) {
                assert(a@.take(i + 1).drop_last() =~= a@.take(i as int));
                assert(b@.take(i + 1).drop_last() =~= b@.take(i as int));
                assert(a@.take(i + 1).last() == a@[i as int]);
                assert(b@.take(i + 1).last() == b@[i as int]);
            }
        }
        if c != d.unwrap() {
            same = false;
        }
        i = i + 1;
    }
    proof {
        assert(a@.take(n as int) =~= a@);
        assert(b@.take(n as int) =~= b@);
    }
    same
}

/// What is left of `path` below `base`.
pub fn strip_prefix<'a>(path: &'a str, base: &str) -> (r: Option<&'a str>)
    ensures
        match r {
            Some(rest) => spec_strip_prefix(path@, base@) == Some(rest@),
            None => spec_strip_prefix(path@, base@) is None,
        },
{
    let n: usize = path.unicode_len();
    let m: usize = base.unicode_len();
    if m == 0 {
        Some(path)
    } else if !starts_with(path, base) {
        None
    } else if n == m {
        Some(path.substring_char(0, 0))
    } else if ends_with_separator(base) {
        Some(path.substring_char(m, n))
    } else if path.get_char(m) == '/' {
        Some(path.substring_char(m + 1, n))
    } else {
        None
    }
}

/// `path` with the extension of its last component replaced, or removed where
/// `extension` is empty.
pub fn with_extension(path: &str, extension: &str) -> (r: String)
    ensures
        r@ == spec_with_extension(path@, extension@),
{
    if !has_file_name(path) {
        return path.to_owned();
    }
    let n: usize = path.unicode_len();
    let name = file_name(path);
    let stem = file_stem(path);
    proof {
        lemma_file_name_is_component(path@);
        lemma_last_index_of(name@, '.');
    }
    let kept: usize = n - name.unicode_len() + stem.unicode_len();
    let mut out = path.substring_char(0, kept).to_owned();
    if char_count(extension) > 0 {
        proof {
            reveal_strlit(".");
        }
        out.append(".");
        assert(out@ =~= path@.subrange(0, kept as int) + seq!['.']);
        out.append(extension);
    }
    out
}

} // verus!
