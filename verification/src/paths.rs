//! What the library asks of `std::path` about paths held as text.
use vstd::prelude::*;
use crate::text::{chars_of, string_from_chars};

verus! {

/// What `Path::file_name` gives for a path: its final component, if any.
pub uninterp spec fn path_file_name(path: Seq<char>) -> Option<Seq<char>>;

/// The final component of `path` (`Path::file_name`), `None` when the path
/// has none (`/`, or a path that ends in `..`).
#[verifier::external_body]
pub(crate) fn file_name_of(path: &str) -> (r: Option<String>)
    ensures
        match r {
            Some(name) => path_file_name(path@) == Some(name@),
            None => path_file_name(path@) is None,
        },
{
    std::path::Path::new(path).file_name().map(|n| n.to_string_lossy().into_owned())
}


/// What `Path::join` gives: `part` after `base`, with a separator between
/// them when needed, or `part` alone when it is absolute.
pub uninterp spec fn path_join(base: Seq<char>, part: Seq<char>) -> Seq<char>;

/// `part` appended to `base` as a path (`Path::join`).
#[verifier::external_body]
pub(crate) fn join_path(base: &str, part: &str) -> (r: String)
    ensures
        r@ == path_join(base@, part@),
{
    std::path::Path::new(base).join(part).to_string_lossy().into_owned()
}


/// The position of the last `c` in `s`, if any.
pub open spec fn last_index_of(s: Seq<char>, c: char) -> Option<int>
    decreases s.len(),
{
    if s.len() == 0 {
        None
    } else if s.last() == c {
        Some(s.len() - 1)
    } else {
        last_index_of(s.drop_last(), c)
    }
}

/// The extension of a path (`Path::extension`): what follows the last `.` of
/// its file name, unless the name has no `.` or its only `.` comes first.
pub open spec fn path_extension(path: Seq<char>) -> Option<Seq<char>> {
    match path_file_name(path) {
        Some(name) => match last_index_of(name, '.') {
            Some(i) => if i == 0 { None } else { Some(name.skip(i + 1)) },
            None => None,
        },
        None => None,
    }
}

proof fn lemma_last_index_of(s: Seq<char>, c: char, k: int)
    requires
        0 <= k <= s.len(),
        forall|j: int| k <= j < s.len() ==> s[j] != c,
    ensures
        last_index_of(s, c) == last_index_of(s.take(k), c),
    decreases s.len() - k,
{
    if k < s.len() {
        lemma_last_index_of(s, c, k + 1);
        assert(s.take(k + 1).drop_last() =~= s.take(k));
    } else {
        assert(s.take(k) =~= s);
    }
}

/// The extension of `path`, without its dot (`Path::extension`): what
/// follows the last `.` of its file name, unless the name has no `.` or its
/// only `.` comes first.
pub(crate) fn extension_of(path: &str) -> (r: Option<String>)
    ensures
        match r {
            Some(ext) => path_extension(path@) == Some(ext@),
            None => path_extension(path@) is None,
        },
{
    let name = match file_name_of(path) {
        Some(name) => name,
        None => return None,
    };
    let chars = chars_of(name.as_str());
    let n = chars.len();
    let mut k: usize = n;
    while k > 0 && chars[k - 1] != '.'
        invariant
            k <= n,
            n == chars@.len(),
            forall|j: int| k <= j < n ==> chars@[j] != '.',
        decreases k,
    {
        k = k - 1;
    }
    proof {
        lemma_last_index_of(chars@, '.', k as int);
        if k > 0 {
            assert(chars@.take(k as int).last() == '.');
        } else {
            assert(chars@.take(0) =~= Seq::<char>::empty());
        }
    }
    if k <= 1 {
        None
    } else {
        Some(string_from_chars(&chars, k, n))
    }
}

/// Whether the path `a` sorts before the path `b` in the order of `Path`,
/// which compares paths component by component.
pub uninterp spec fn path_before(a: Seq<char>, b: Seq<char>) -> bool;

/// Whether the path `a` sorts before the path `b` (`<` on `Path`, which
/// compares components in order: a strict weak order, hence asymmetric;
/// paths such as `a/b` and `a//b` are equal in it).
#[verifier::external_body]
pub(crate) fn path_lt(a: &str, b: &str) -> (r: bool)
    ensures
        r == path_before(a@, b@),
        r ==> !path_before(b@, a@),
{
    std::path::Path::new(a) < std::path::Path::new(b)
}


/// Whether `base` is a prefix of `path`, component by component
/// (`Path::starts_with`).
pub uninterp spec fn path_starts_with(path: Seq<char>, base: Seq<char>) -> bool;

/// Whether `path` lies under `base`, compared component by component
/// (`Path::starts_with`).
#[verifier::external_body]
pub(crate) fn starts_with_path(path: &str, base: &str) -> (r: bool)
    ensures
        r == path_starts_with(path@, base@),
{
    std::path::Path::new(path).starts_with(base)
}

/// What `Path::parent` gives for a path: the path without its final
/// component, if it has one.
pub uninterp spec fn path_parent(path: Seq<char>) -> Option<Seq<char>>;

/// The directory holding `path` (`Path::parent`), `None` for a root or an
/// empty path.
#[verifier::external_body]
pub(crate) fn parent_of(path: &str) -> (r: Option<String>)
    ensures
        match r {
            Some(dir) => path_parent(path@) == Some(dir@),
            None => path_parent(path@) is None,
        },
{
    std::path::Path::new(path).parent().map(|d| d.to_string_lossy().into_owned())
}

/// Whether two paths are the same path for `Path`'s `==`, which compares
/// them component by component.
pub uninterp spec fn path_same(a: Seq<char>, b: Seq<char>) -> bool;

/// Whether `a` and `b` name the same path (`==` on `Path`); identical texts
/// always do.
#[verifier::external_body]
pub(crate) fn same_path(a: &str, b: &str) -> (r: bool)
    ensures
        r == path_same(a@, b@),
        a@ == b@ ==> r,
{
    std::path::Path::new(a) == std::path::Path::new(b)
}

} // verus!
