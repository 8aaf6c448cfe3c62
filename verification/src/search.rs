//! "Find": the entries of a directory tree whose names match a pattern with
//! `*` and `?`, case aside. The walk of the tree is driven from outside, one
//! directory at a time; this module decides what is kept and when to stop.
use vstd::prelude::*;
use crate::paths::{path_before, path_lt};

verus! {

broadcast use vstd::seq_lib::group_to_multiset_ensures;

/// Most entries a search reports.
pub const MAX_RESULTS: usize = 200;

#[verifier::external_type_specification]
#[verifier::external_body]
pub struct ExGlobPattern(glob::Pattern);

#[verifier::external_type_specification]
#[verifier::external_body]
pub struct ExGlobPatternError(glob::PatternError);

/// Whether `glob` compiles `pattern` (`Pattern::new` returns `Ok`).
pub uninterp spec fn glob_compiles(pattern: Seq<char>) -> bool;

/// Whether the pattern matches the whole of `name` (`Pattern::matches_with`)
/// under the options given: whether case counts, whether `*`, `?` and
/// `[...]` may not match a path separator, and whether they may not match a
/// leading dot.
pub uninterp spec fn glob_matches(
    pattern: Seq<char>,
    name: Seq<char>,
    case_sensitive: bool,
    literal_separator: bool,
    literal_leading_dot: bool,
) -> bool;

/// Compiles `pattern` (`Pattern::new`).
#[verifier::external_body]
fn glob_new(pattern: &str) -> (r: Result<glob::Pattern, glob::PatternError>)
    ensures
        r.is_ok() == glob_compiles(pattern@),
{
    glob::Pattern::new(pattern)
}

/// A compiled pattern, with the text it was compiled from. `pattern` is
/// compiled from `source`: nothing builds a `NamePattern` but `Finder::new`,
/// which compiles `source` itself; `glob_is_match` relies on it.
struct NamePattern {
    source: String,
    pattern: glob::Pattern,
}

/// Whether the pattern of `p` matches `name` (`Pattern::matches_with`, with
/// the three options as given).
#[verifier::external_body]
fn glob_is_match(
    p: &NamePattern,
    name: &str,
    case_sensitive: bool,
    literal_separator: bool,
    literal_leading_dot: bool,
) -> (b: bool)
    ensures
        b == glob_matches(p.source@, name@, case_sensitive, literal_separator, literal_leading_dot),
{
    p.pattern.matches_with(
        name,
        glob::MatchOptions {
            case_sensitive,
            require_literal_separator: literal_separator,
            require_literal_leading_dot: literal_leading_dot,
        },
    )
}

/// The entries found, sorted, and whether the search stopped at its cap
/// (there may be more on disk than listed).
pub struct FindOutcome {
    pub matches: Vec<String>,
    pub truncated: bool,
}

/// A search in progress. The walker asks `next_dir` for the directory to
/// read next, and reports each of its entries to `visit`.
pub struct Finder {
    pattern: NamePattern,
    results: Vec<String>,
    pending: Vec<String>,
}

/// The texts of a list of strings.
pub open spec fn texts(v: Seq<String>) -> Seq<Seq<char>> {
    Seq::new(v.len(), |k: int| v[k]@)
}

/// `s` is in the order of paths: no path comes before the one ahead of it.
pub open spec fn paths_in_order(s: Seq<Seq<char>>) -> bool {
    forall|k: int| 0 <= k < s.len() - 1 ==> !path_before(#[trigger] s[k + 1], s[k])
}

/// The paths kept after the entry `name` at `path` is visited, from `found`:
/// nothing changes once `MAX_RESULTS` are kept; else the path is kept when
/// the name matches "Find"'s way (case aside, `*` and `?` free).
pub open spec fn visit_found(pattern: Seq<char>, found: Seq<Seq<char>>, path: Seq<char>, name: Seq<char>) -> Seq<
    Seq<char>,
> {
    if found.len() >= MAX_RESULTS {
        found
    } else if glob_matches(pattern, name, false, false, false) {
        found.push(path)
    } else {
        found
    }
}

/// The paths kept after the entries `visits` (path, name) are visited in
/// order, from `found`.
pub open spec fn found_after(pattern: Seq<char>, found: Seq<Seq<char>>, visits: Seq<(Seq<char>, Seq<char>)>) -> Seq<
    Seq<char>,
>
    decreases visits.len(),
{
    if visits.len() == 0 {
        found
    } else {
        let before = found_after(pattern, found, visits.drop_last());
        visit_found(pattern, before, visits.last().0, visits.last().1)
    }
}

/// The paths of the visited entries whose names match, in visiting order.
pub open spec fn matching_paths(pattern: Seq<char>, visits: Seq<(Seq<char>, Seq<char>)>) -> Seq<Seq<char>>
    decreases visits.len(),
{
    if visits.len() == 0 {
        Seq::empty()
    } else {
        let before = matching_paths(pattern, visits.drop_last());
        if glob_matches(pattern, visits.last().1, false, false, false) {
            before.push(visits.last().0)
        } else {
            before
        }
    }
}

/// Whatever order the walk visits the entries in, a search keeps the first
/// `MAX_RESULTS` of the visited entries whose names match, in visiting
/// order, and all of them when it stays under the cap.
pub proof fn law_find_keeps_first_matches(pattern: Seq<char>, visits: Seq<(Seq<char>, Seq<char>)>)
    ensures
        ({
            let all = matching_paths(pattern, visits);
            found_after(pattern, Seq::empty(), visits) == if all.len() <= MAX_RESULTS {
                all
            } else {
                all.take(MAX_RESULTS as int)
            }
        }),
    decreases visits.len(),
{
    if visits.len() > 0 {
        let head = visits.drop_last();
        law_find_keeps_first_matches(pattern, head);
        let all = matching_paths(pattern, visits);
        let earlier = matching_paths(pattern, head);
        if earlier.len() > MAX_RESULTS {
            assert(all.take(MAX_RESULTS as int) =~= earlier.take(MAX_RESULTS as int));
        } else if earlier.len() == MAX_RESULTS && glob_matches(pattern, visits.last().1, false, false, false) {
            assert(all.take(MAX_RESULTS as int) =~= earlier);
        }
    }
}

impl Finder {
    /// A search never keeps more than `MAX_RESULTS` paths.
    #[verifier::type_invariant]
    spec fn within_cap(self) -> bool {
        self.results@.len() <= MAX_RESULTS
    }

    /// The pattern searched for.
    pub closed spec fn pattern(&self) -> Seq<char> {
        self.pattern.source@
    }

    /// The paths kept so far, in the order found.
    pub closed spec fn found(&self) -> Seq<Seq<char>> {
        texts(self.results@)
    }

    /// The directories waiting to be read, the next one last.
    pub closed spec fn waiting(&self) -> Seq<Seq<char>> {
        texts(self.pending@)
    }

    /// A search from `root` for `pattern`; `None` when the pattern is invalid
    /// (the search then finds nothing).
    pub fn new(root: &str, pattern: &str) -> (r: Option<Finder>)
        ensures
            r is Some == glob_compiles(pattern@),
            r matches Some(f) ==> (f.found().len() <= MAX_RESULTS && f.pattern() == pattern@ && f.found() == Seq::<Seq<char>>::empty()
                && f.waiting() == seq![root@]),
    {
        match glob_new(pattern) {
            Ok(compiled) => {
                let f = Finder {
                    pattern: NamePattern { source: pattern.to_owned(), pattern: compiled },
                    results: Vec::new(),
                    pending: vec![root.to_owned()],
                };
                assert(texts(f.results@) =~= Seq::<Seq<char>>::empty());
                assert(texts(f.pending@) =~= seq![root@]);
                Some(f)
            },
            Err(_) => None,
        }
    }

    /// The directory to read next: none once the cap is reached or nothing
    /// waits; else the one added last.
    pub fn next_dir(&mut self) -> (dir: Option<String>)
        ensures
            final(self).pattern() == old(self).pattern(),
            final(self).found() == old(self).found(),
            final(self).found().len() <= MAX_RESULTS,
            old(self).found().len() >= MAX_RESULTS || old(self).waiting().len() == 0 ==> dir is None
                && final(self).waiting() == old(self).waiting(),
            old(self).found().len() < MAX_RESULTS && old(self).waiting().len() > 0 ==> (dir matches Some(d)
                && d@ == old(self).waiting().last() && final(self).waiting() == old(self).waiting().drop_last()),
    {
        proof {
            use_type_invariant(&*self);
        }
        if self.results.len() >= MAX_RESULTS {
            return None;
        }
        let ghost before = self.pending@;
        let mut pending: Vec<String> = Vec::new();
        std::mem::swap(&mut pending, &mut self.pending);
        let d = pending.pop();
        std::mem::swap(&mut pending, &mut self.pending);
        proof {
            if before.len() > 0 {
                assert(texts(self.pending@) =~= texts(before).drop_last());
            }
        }
        d
    }

    /// An entry `name` at `path` of the directory being read: kept when its
    /// name matches the pattern with case not counting and `*`, `?` free to
    /// match separators and leading dots; queued when it is a directory.
    /// Returns false, changing nothing, once the cap is reached.
    pub fn visit(&mut self, path: &str, name: &str, is_dir: bool) -> (go_on: bool)
        ensures
            final(self).pattern() == old(self).pattern(),
            final(self).found().len() <= MAX_RESULTS,
            go_on == (old(self).found().len() < MAX_RESULTS),
            final(self).found() == visit_found(old(self).pattern(), old(self).found(), path@, name@),
            !go_on ==> final(self).found() == old(self).found() && final(self).waiting() == old(self).waiting(),
            go_on ==> final(self).found() == if glob_matches(old(self).pattern(), name@, false, false, false) {
                old(self).found().push(path@)
            } else {
                old(self).found()
            },
            go_on ==> final(self).waiting() == if is_dir {
                old(self).waiting().push(path@)
            } else {
                old(self).waiting()
            },
    {
        proof {
            use_type_invariant(&*self);
        }
        if self.results.len() >= MAX_RESULTS {
            return false;
        }
        let ghost found_before = self.results@;
        let ghost waiting_before = self.pending@;
        if glob_is_match(&self.pattern, name, false, false, false) {
            let mut results: Vec<String> = Vec::new();
            std::mem::swap(&mut results, &mut self.results);
            results.push(path.to_owned());
            std::mem::swap(&mut results, &mut self.results);
            assert(texts(self.results@) =~= texts(found_before).push(path@));
        }
        if is_dir {
            let mut pending: Vec<String> = Vec::new();
            std::mem::swap(&mut pending, &mut self.pending);
            pending.push(path.to_owned());
            std::mem::swap(&mut pending, &mut self.pending);
            assert(texts(self.pending@) =~= texts(waiting_before).push(path@));
        }
        true
    }

    /// The paths found, sorted as paths, and whether the cap was reached.
    pub fn finish(self) -> (outcome: FindOutcome)
        ensures
            texts(outcome.matches@).to_multiset() == self.found().to_multiset(),
            paths_in_order(texts(outcome.matches@)),
            outcome.truncated == (self.found().len() == MAX_RESULTS),
            outcome.matches@.len() <= MAX_RESULTS,
    {
        proof {
            use_type_invariant(&self);
        }
        let truncated = self.results.len() >= MAX_RESULTS;
        let ghost found = self.results@;
        let matches = sort_paths(self.results);
        proof {
            vstd::seq_lib::to_multiset_len(texts(matches@));
            vstd::seq_lib::to_multiset_len(texts(found));
        }
        FindOutcome { matches, truncated }
    }
}

proof fn lemma_texts_insert(v: Seq<String>, i: int, s: String)
    requires
        0 <= i <= v.len(),
    ensures
        texts(v.insert(i, s)) == texts(v).insert(i, s@),
{
    assert(texts(v.insert(i, s)) =~= texts(v).insert(i, s@));
}

/// `paths` in the order of paths (insertion sort).
fn sort_paths(paths: Vec<String>) -> (out: Vec<String>)
    ensures
        texts(out@).to_multiset() == texts(paths@).to_multiset(),
        paths_in_order(texts(out@)),
{
    let ghost all = paths@;
    assert(all.len() == paths.len());
    let mut out: Vec<String> = Vec::new();
    let mut i: usize = 0;
    assert(all.take(0) =~= Seq::<String>::empty());
    assert(texts(out@) =~= Seq::<Seq<char>>::empty());
    for p in it: paths.into_iter()
        invariant
            it.seq() == all,
            i == it.index(),
            i <= all.len(),
            all.len() <= usize::MAX,
            texts(out@).to_multiset() == texts(all.take(i as int)).to_multiset(),
            paths_in_order(texts(out@)),
    {
        let mut pos: usize = 0;
        loop
            invariant
                pos <= out@.len(),
                forall|k: int| 0 <= k < pos ==> !path_before(p@, #[trigger] out@[k]@),
            ensures
                pos <= out@.len(),
                forall|k: int| 0 <= k < pos ==> !path_before(p@, #[trigger] out@[k]@),
                pos < out@.len() ==> path_before(p@, out@[pos as int]@) && !path_before(out@[pos as int]@, p@),
            decreases out@.len() - pos,
        {
            if pos >= out.len() {
                break;
            }
            if path_lt(p.as_str(), out[pos].as_str()) {
                break;
            }
            pos = pos + 1;
        }
        let ghost old_out = out@;
        assert(paths_in_order(texts(old_out)));
        proof {
            lemma_texts_insert(old_out, pos as int, p);
            assert(all.take(i + 1) =~= all.take(i as int).push(p));
            assert(texts(all.take(i + 1)) =~= texts(all.take(i as int)).push(p@));
            vstd::seq_lib::to_multiset_insert(texts(old_out), pos as int, p@);
            vstd::seq_lib::to_multiset_build(texts(all.take(i as int)), p@);
        }
        out.insert(pos, p);
        proof {
            let t = texts(out@);
            assert(t == texts(old_out).insert(pos as int, p@));
            assert forall|k: int| 0 <= k < t.len() - 1 implies !path_before(#[trigger] t[k + 1], t[k]) by {
                if k + 1 == pos {
                    assert(t[k] == old_out[k]@);
                } else if k == pos {
                    assert(t[k + 1] == old_out[k]@);
                } else if k > pos {
                    assert(t[k + 1] == texts(old_out)[k]);
                    assert(t[k] == texts(old_out)[k - 1]);
                    let j = k - 1;
                    assert(!path_before(texts(old_out)[j + 1], texts(old_out)[j]));
                } else {
                    assert(t[k + 1] == texts(old_out)[k + 1]);
                    assert(t[k] == texts(old_out)[k]);
                    assert(!path_before(texts(old_out)[k + 1], texts(old_out)[k]));
                }
            }
        }
        i = i + 1;
    }
    assert(all.take(all.len() as int) =~= all);
    out
}

} // verus!
