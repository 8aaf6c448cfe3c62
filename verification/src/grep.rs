//! "Search": the lines of the selected files that a regular expression matches.
use vstd::prelude::*;
use crate::app::{split_lines, text_lines};

verus! {

/// Most lines a search reports.
pub const MAX_RESULTS: usize = 200;

#[verifier::external_type_specification]
#[verifier::external_body]
pub struct ExRegex(regex::Regex);

/// Whether `regex` compiles `pattern` (`Regex::new` returns `Ok`).
pub uninterp spec fn regex_compiles(pattern: Seq<char>) -> bool;

/// Whether the regular expression `pattern` matches somewhere in `text`
/// (`Regex::is_match`).
pub uninterp spec fn regex_finds(pattern: Seq<char>, text: Seq<char>) -> bool;

/// The message of the error `Regex::new` gives for `pattern` (its
/// `Display`), when the pattern does not compile.
pub uninterp spec fn regex_error_message(pattern: Seq<char>) -> Seq<char>;

/// Compiles `pattern` (`Regex::new`); an error comes back as its message.
#[verifier::external_body]
fn regex_new(pattern: &str) -> (r: Result<regex::Regex, String>)
    ensures
        r.is_ok() == regex_compiles(pattern@),
        r matches Err(m) ==> m@ == regex_error_message(pattern@),
{
    match regex::Regex::new(pattern) {
        Ok(regex) => Ok(regex),
        Err(e) => Err(e.to_string()),
    }
}

/// A compiled regular expression, with the pattern it was compiled from.
/// `regex` is compiled from `source`: nothing builds a `LinePattern` but
/// `GrepSearch::new`, which compiles `source` itself; `regex_is_match`
/// relies on it.
struct LinePattern {
    source: String,
    regex: regex::Regex,
}

/// Whether the regular expression of `p` matches somewhere in `line`
/// (`Regex::is_match`). `p.regex` was compiled from `p.source`: the only
/// constructor of `LinePattern` is `GrepSearch::new`.
#[verifier::external_body]
fn regex_is_match(p: &LinePattern, line: &str) -> (b: bool)
    ensures
        b == regex_finds(p.source@, line@),
{
    p.regex.is_match(line)
}

/// Why a search could not start.
pub enum GrepError {
    /// The pattern is not a valid regular expression; the message says why.
    InvalidPattern(String),
}

/// A line matching the pattern in one of the files searched.
pub struct GrepMatch {
    pub path: String,
    pub line_number: usize,
    pub line: String,
}

impl View for GrepMatch {
    type V = (Seq<char>, nat, Seq<char>);

    open spec fn view(&self) -> Self::V {
        (self.path@, self.line_number as nat, self.line@)
    }
}

/// The lines found, and whether the search stopped at its cap.
pub struct GrepOutcome {
    pub matches: Vec<GrepMatch>,
    pub truncated: bool,
}

/// The views of the matches found.
pub open spec fn hits_of(matches: Seq<GrepMatch>) -> Seq<(Seq<char>, nat, Seq<char>)> {
    Seq::new(matches.len(), |k: int| matches[k]@)
}

/// The search of the lines of one file, from line `from` (counted from 0),
/// after the matches `hits`: each matching line is kept with its number
/// (counted from 1); when `MAX_RESULTS` matches are kept and a line remains,
/// the search stops, truncated.
pub open spec fn scan_lines(
    pattern: Seq<char>,
    path: Seq<char>,
    lines: Seq<Seq<char>>,
    from: nat,
    hits: Seq<(Seq<char>, nat, Seq<char>)>,
) -> (Seq<(Seq<char>, nat, Seq<char>)>, bool)
    decreases lines.len() - from,
{
    if from >= lines.len() {
        (hits, false)
    } else if hits.len() >= MAX_RESULTS {
        (hits, true)
    } else {
        let next = if regex_finds(pattern, lines[from as int]) {
            hits.push((path, from + 1, lines[from as int]))
        } else {
            hits
        };
        scan_lines(pattern, path, lines, from + 1, next)
    }
}

/// The search of `files` (path, content) in order, after a search that
/// stopped (`truncated`) or not with the matches `hits`.
pub open spec fn grep_files(
    pattern: Seq<char>,
    files: Seq<(Seq<char>, Seq<char>)>,
) -> (Seq<(Seq<char>, nat, Seq<char>)>, bool)
    decreases files.len(),
{
    if files.len() == 0 {
        (Seq::empty(), false)
    } else {
        let before = grep_files(pattern, files.drop_last());
        if before.1 {
            before
        } else {
            scan_lines(pattern, files.last().0, text_lines(files.last().1), 0, before.0)
        }
    }
}

proof fn lemma_scan_keeps_cap(
    pattern: Seq<char>,
    path: Seq<char>,
    lines: Seq<Seq<char>>,
    from: nat,
    hits: Seq<(Seq<char>, nat, Seq<char>)>,
)
    requires
        hits.len() <= MAX_RESULTS,
    ensures
        scan_lines(pattern, path, lines, from, hits).0.len() <= MAX_RESULTS,
        scan_lines(pattern, path, lines, from, hits).1 ==> scan_lines(pattern, path, lines, from, hits).0.len()
            == MAX_RESULTS,
    decreases lines.len() - from,
{
    if from < lines.len() && hits.len() < MAX_RESULTS {
        let next = if regex_finds(pattern, lines[from as int]) {
            hits.push((path, from + 1, lines[from as int]))
        } else {
            hits
        };
        lemma_scan_keeps_cap(pattern, path, lines, from + 1, next);
    }
}

/// A search never reports more than `MAX_RESULTS` lines, and says it was
/// cut only when it holds exactly that many.
pub proof fn law_search_stops_at_cap(pattern: Seq<char>, files: Seq<(Seq<char>, Seq<char>)>)
    ensures
        grep_files(pattern, files).0.len() <= MAX_RESULTS,
        grep_files(pattern, files).1 ==> grep_files(pattern, files).0.len() == MAX_RESULTS,
    decreases files.len(),
{
    if files.len() > 0 {
        law_search_stops_at_cap(pattern, files.drop_last());
        let before = grep_files(pattern, files.drop_last());
        if !before.1 {
            lemma_scan_keeps_cap(pattern, files.last().0, text_lines(files.last().1), 0, before.0);
        }
    }
}

/// Every line of `lines` from line `from` (counted from 0) that the pattern
/// matches, with its number (counted from 1), with no cap.
pub open spec fn scan_all(pattern: Seq<char>, path: Seq<char>, lines: Seq<Seq<char>>, from: nat) -> Seq<
    (Seq<char>, nat, Seq<char>),
>
    decreases lines.len() - from,
{
    if from >= lines.len() {
        Seq::empty()
    } else if regex_finds(pattern, lines[from as int]) {
        seq![(path, from + 1, lines[from as int])] + scan_all(pattern, path, lines, from + 1)
    } else {
        scan_all(pattern, path, lines, from + 1)
    }
}

/// Every matching line of `files` (path, content), file after file, with no
/// cap.
pub open spec fn all_hits(pattern: Seq<char>, files: Seq<(Seq<char>, Seq<char>)>) -> Seq<
    (Seq<char>, nat, Seq<char>),
>
    decreases files.len(),
{
    if files.len() == 0 {
        Seq::empty()
    } else {
        all_hits(pattern, files.drop_last()) + scan_all(pattern, files.last().0, text_lines(files.last().1), 0)
    }
}

/// The first `MAX_RESULTS` items of `s` (all of them when there are fewer).
pub open spec fn first_capped<A>(s: Seq<A>) -> Seq<A> {
    if s.len() <= MAX_RESULTS {
        s
    } else {
        s.take(MAX_RESULTS as int)
    }
}

proof fn lemma_scan_is_capped_prefix(
    pattern: Seq<char>,
    path: Seq<char>,
    lines: Seq<Seq<char>>,
    from: nat,
    hits: Seq<(Seq<char>, nat, Seq<char>)>,
)
    requires
        hits.len() <= MAX_RESULTS,
    ensures
        scan_lines(pattern, path, lines, from, hits).0 == first_capped(hits + scan_all(pattern, path, lines, from)),
        !scan_lines(pattern, path, lines, from, hits).1 ==> scan_lines(pattern, path, lines, from, hits).0
            == hits + scan_all(pattern, path, lines, from),
    decreases lines.len() - from,
{
    let rest = scan_all(pattern, path, lines, from);
    if from >= lines.len() {
        assert(hits + rest =~= hits);
    } else if hits.len() >= MAX_RESULTS {
        assert((hits + rest).take(MAX_RESULTS as int) =~= hits);
    } else {
        let line = lines[from as int];
        let later = scan_all(pattern, path, lines, from + 1);
        if regex_finds(pattern, line) {
            let next = hits.push((path, from + 1, line));
            lemma_scan_is_capped_prefix(pattern, path, lines, from + 1, next);
            assert(next + later =~= hits + rest);
        } else {
            lemma_scan_is_capped_prefix(pattern, path, lines, from + 1, hits);
        }
    }
}

/// A search reports the first `MAX_RESULTS` of all the matching lines of the
/// files, in order, and all of them when it did not stop at its cap.
pub proof fn law_search_keeps_first_matches(pattern: Seq<char>, files: Seq<(Seq<char>, Seq<char>)>)
    ensures
        grep_files(pattern, files).0 == first_capped(all_hits(pattern, files)),
        !grep_files(pattern, files).1 ==> grep_files(pattern, files).0 == all_hits(pattern, files),
    decreases files.len(),
{
    if files.len() > 0 {
        let head = files.drop_last();
        law_search_keeps_first_matches(pattern, head);
        law_search_stops_at_cap(pattern, head);
        let before = grep_files(pattern, head);
        let earlier = all_hits(pattern, head);
        let last = scan_all(pattern, files.last().0, text_lines(files.last().1), 0);
        if before.1 {
            assert(earlier.len() >= MAX_RESULTS);
            assert((earlier + last).take(MAX_RESULTS as int) =~= earlier.take(MAX_RESULTS as int));
        } else {
            lemma_scan_is_capped_prefix(pattern, files.last().0, text_lines(files.last().1), 0, before.0);
        }
    }
}

/// A search in progress: the files are fed one at a time.
pub struct GrepSearch {
    pattern: LinePattern,
    matches: Vec<GrepMatch>,
    truncated: bool,
}

impl GrepSearch {
    /// The pattern searched for.
    pub closed spec fn pattern(&self) -> Seq<char> {
        self.pattern.source@
    }

    /// The matches found so far.
    pub closed spec fn hits(&self) -> Seq<(Seq<char>, nat, Seq<char>)> {
        hits_of(self.matches@)
    }

    /// Whether the search stopped at its cap.
    pub closed spec fn stopped(&self) -> bool {
        self.truncated
    }

    /// Starts a search for the regular expression `pattern`, or says why it
    /// cannot be compiled.
    pub fn new(pattern: &str) -> (r: Result<GrepSearch, GrepError>)
        ensures
            r.is_ok() == regex_compiles(pattern@),
            r matches Ok(s) ==> s.pattern() == pattern@ && s.hits().len() == 0 && !s.stopped(),
            r matches Err(GrepError::InvalidPattern(m)) ==> m@ == regex_error_message(pattern@),
    {
        match regex_new(pattern) {
            Ok(regex) => {
                let s = GrepSearch {
                    pattern: LinePattern { source: pattern.to_owned(), regex },
                    matches: Vec::new(),
                    truncated: false,
                };
                assert(hits_of(s.matches@) =~= Seq::empty());
                Ok(s)
            },
            Err(m) => Err(GrepError::InvalidPattern(m)),
        }
    }

    /// Searches the lines of the file `path`, whose text is `content`;
    /// returns whether the search goes on (it stops at its cap).
    pub fn add_file(&mut self, path: &str, content: &str) -> (go_on: bool)
        ensures
            final(self).pattern() == old(self).pattern(),
            old(self).stopped() ==> final(self).hits() == old(self).hits() && final(self).stopped(),
            !old(self).stopped() ==> (final(self).hits(), final(self).stopped()) == scan_lines(
                old(self).pattern(),
                path@,
                text_lines(content@),
                0,
                old(self).hits(),
            ),
            go_on == !final(self).stopped(),
    {
        if self.truncated {
            return false;
        }
        let lines = split_lines(content);
        let n = lines.len();
        let ghost all = text_lines(content@);
        assert(lines@.len() == all.len());
        let mut i: usize = 0;
        while i < n
            invariant
                n == lines@.len(),
                n == all.len(),
                all == text_lines(content@),
                i <= n,
                forall|k: int| 0 <= k < n ==> #[trigger] lines@[k]@ == all[k],
                !self.truncated,
                !old(self).truncated,
                self.pattern.source@ == old(self).pattern.source@,
                scan_lines(self.pattern.source@, path@, all, 0, old(self).hits())
                    == scan_lines(self.pattern.source@, path@, all, i as nat, hits_of(self.matches@)),
            decreases n - i,
        {
            if self.matches.len() >= MAX_RESULTS {
                assert(hits_of(self.matches@).len() == self.matches@.len());
                assert(scan_lines(self.pattern.source@, path@, all, i as nat, hits_of(self.matches@))
                    == (hits_of(self.matches@), true));
                self.truncated = true;
                return false;
            }
            let ghost before = hits_of(self.matches@);
            if regex_is_match(&self.pattern, lines[i].as_str()) {
                let m = GrepMatch { path: path.to_owned(), line_number: i + 1, line: lines[i].clone() };
                self.matches.push(m);
                assert(hits_of(self.matches@) =~= before.push((path@, (i + 1) as nat, all[i as int])));
            }
            i = i + 1;
        }
        true
    }

    /// The matches found and whether the search stopped at its cap.
    pub fn finish(self) -> (outcome: GrepOutcome)
        ensures
            hits_of(outcome.matches@) == self.hits(),
            outcome.truncated == self.stopped(),
    {
        GrepOutcome { matches: self.matches, truncated: self.truncated }
    }
}

/// The files that a search reads among `files`, given as (path, text): those
/// with a text, in order; the others (directories, unreadable files) are
/// passed over.
pub open spec fn readable_files(files: Seq<(String, Option<String>)>) -> Seq<(Seq<char>, Seq<char>)>
    decreases files.len(),
{
    if files.len() == 0 {
        Seq::empty()
    } else {
        let before = readable_files(files.drop_last());
        match files.last().1 {
            Some(content) => before.push((files.last().0@, content@)),
            None => before,
        }
    }
}

/// Searches `pattern` (a regular expression) line by line in the files
/// `files`, given in order as (path, text), the text being `None` for a
/// directory or a file that does not read as text; stops after
/// `MAX_RESULTS` matches when lines remain.
pub fn search_in_files(files: &Vec<(String, Option<String>)>, pattern: &str) -> (r: Result<GrepOutcome, GrepError>)
    ensures
        r.is_ok() == regex_compiles(pattern@),
        r matches Err(GrepError::InvalidPattern(m)) ==> m@ == regex_error_message(pattern@),
        r matches Ok(outcome) ==> (hits_of(outcome.matches@), outcome.truncated) == grep_files(
            pattern@,
            readable_files(files@),
        ),
{
    let mut search = match GrepSearch::new(pattern) {
        Ok(s) => s,
        Err(e) => return Err(e),
    };
    let n = files.len();
    let mut i: usize = 0;
    let mut go_on = true;
    assert(files@.take(0) =~= Seq::empty());
    while i < n && go_on
        invariant
            n == files@.len(),
            i <= n,
            go_on == !search.stopped(),
            search.pattern() == pattern@,
            (search.hits(), search.stopped()) == grep_files(pattern@, readable_files(files@.take(i as int))),
        decreases n - i,
    {
        assert(files@.take(i + 1).drop_last() =~= files@.take(i as int));
        match &files[i].1 {
            Some(content) => {
                assert(readable_files(files@.take(i + 1)).drop_last() =~= readable_files(files@.take(i as int)));
                go_on = search.add_file(files[i].0.as_str(), content.as_str());
            },
            None => {},
        }
        i = i + 1;
    }
    proof {
        let k = i;
        assert forall|j: nat| k <= j <= n implies #[trigger] grep_files(pattern@, readable_files(files@.take(j as int)))
            == grep_files(pattern@, readable_files(files@.take(k as int))) by {
            lemma_grep_stays_stopped(pattern@, files@, k as nat, j);
        }
        assert(files@.take(n as int) =~= files@);
    }
    Ok(search.finish())
}

proof fn lemma_grep_stays_stopped(pattern: Seq<char>, files: Seq<(String, Option<String>)>, k: nat, j: nat)
    requires
        k <= j <= files.len(),
        k < files.len() ==> grep_files(pattern, readable_files(files.take(k as int))).1,
    ensures
        grep_files(pattern, readable_files(files.take(j as int))) == grep_files(
            pattern,
            readable_files(files.take(k as int)),
        ),
    decreases j,
{
    if j > k {
        lemma_grep_stays_stopped(pattern, files, k, (j - 1) as nat);
        assert(files.take(j as int).drop_last() =~= files.take(j - 1));
        let before = readable_files(files.take(j - 1));
        if files.take(j as int).last().1 is Some {
            assert(readable_files(files.take(j as int)).drop_last() =~= before);
        }
    }
}

} // verus!
