//! Searching: the state of the search line, and the places at which a
//! pattern is found in a line of a file.

use crate::chars::{str_chars, str_to_string};
use crate::code::matches_at;
use crate::rope::{rope_chars, rope_new};
use crate::text::occurrences;
use vstd::prelude::*;

verus! {

/// A place at which the pattern was found: line and column, and the line
/// itself where it is shown.
#[derive(Debug)]
pub struct SearchResult {
    pub line: usize,
    pub column: usize,
    pub preview: Option<String>,
}

/// The places at which the pattern was found in one file.
#[derive(Debug)]
pub struct FileSearchResult {
    pub file_path: String,
    pub search_results: Vec<SearchResult>,
}

/// The state of the search line: the pattern, the cursor in it, what was
/// found and which of the places is shown.
pub struct Search {
    pub active: bool,
    pub pattern: ropey::Rope,
    pub results: Vec<SearchResult>,
    pub index: usize,
    pub cursor_pos: usize,
}

/// The search line as plain values: the pattern, the places at which it was
/// found, each by its line and column, which of them is shown, and the
/// cursor in the pattern.
pub struct SearchView {
    pub active: bool,
    pub pattern: Seq<char>,
    pub places: Seq<(usize, usize)>,
    pub index: usize,
    pub cursor_pos: usize,
}

/// The places of results: the line and the column of each.
pub open spec fn places(results: Seq<SearchResult>) -> Seq<(usize, usize)> {
    results.map_values(|r: SearchResult| (r.line, r.column))
}

impl View for Search {
    type V = SearchView;

    open spec fn view(&self) -> SearchView {
        SearchView {
            active: self.active,
            pattern: self.pattern_chars(),
            places: places(self.results@),
            index: self.index,
            cursor_pos: self.cursor_pos,
        }
    }
}

impl Search {
    /// The characters of the pattern.
    pub open spec fn pattern_chars(&self) -> Seq<char> {
        rope_chars(self.pattern)
    }

    /// A search that has not started.
    pub fn new() -> (search: Self)
        ensures
            !search.active,
            search.pattern_chars().len() == 0,
            search.results@.len() == 0,
            search.index == 0,
            search.cursor_pos == 0,
    {
        Self { active: false, pattern: rope_new(), results: Vec::new(), index: 0, cursor_pos: 0 }
    }
}

/// The places at which `pattern` is found in a line, as results for line
/// number `line_number`: each with the column of the match and the line
/// itself, from left to right, each search starting behind the match before
/// it.
pub open spec fn line_matches(line: Seq<char>, pattern: Seq<char>) -> Seq<int> {
    occurrences(line, pattern, 0)
}

/// The places at which `pattern` is found in a line of a file.
pub fn search_on_line(line: &str, line_number: usize, pattern: &str) -> (results: Vec<SearchResult>)
    requires
        pattern@.len() > 0,
    ensures
        results@.len() == line_matches(line@, pattern@).len(),
        forall|i: int|
            0 <= i < results@.len() ==> (#[trigger] results@[i]).line == line_number
                && results@[i].column == line_matches(line@, pattern@)[i] && results@[i].preview
                is Some && results@[i].preview->0@ == line@,
{
    let content = str_chars(line);
    let pat = str_chars(pattern);
    let mut results: Vec<SearchResult> = Vec::new();
    let ghost all = occurrences(line@, pattern@, 0);
    let mut start: usize = 0;
    while pat.len() <= content.len() - start
        invariant
            start <= content@.len(),
            content@ == line@,
            pat@ == pattern@,
            pat@.len() > 0,
            all == occurrences(line@, pattern@, 0),
            results@.len() <= all.len(),
            all == all.take(results@.len() as int) + occurrences(line@, pattern@, start as int),
            forall|i: int|
                0 <= i < results@.len() ==> (#[trigger] results@[i]).line == line_number
                    && results@[i].column == all[i] && results@[i].preview is Some
                    && results@[i].preview->0@ == line@,
        decreases content@.len() - start,
    {
        let ghost rest = occurrences(line@, pattern@, start as int);
        let ghost n = results@.len() as int;
        if matches_at(&content, &pat, start) {
            proof {
                let after = occurrences(line@, pattern@, start + pat@.len());
                assert(rest =~= seq![start as int] + after);
                assert(all[n] == (all.take(n) + rest)[n]);
                assert(all.take(n + 1) =~= all.take(n).push(start as int));
                assert(all.take(n + 1) + after =~= all.take(n) + rest);
            }
            results.push(
                SearchResult { line: line_number, column: start, preview: Some(str_to_string(line)) },
            );
            start = start + pat.len();
        } else {
            start = start + 1;
        }
    }
    proof {
        assert(occurrences(line@, pattern@, start as int) =~= Seq::<int>::empty());
        assert(all =~= all.take(results@.len() as int));
    }
    results
}

/// The file with its places, where the pattern was found in it at all.
pub fn file_result(file_path: String, search_results: Vec<SearchResult>) -> (r: Option<
    FileSearchResult,
>)
    ensures
        search_results@.len() == 0 ==> r is None,
        search_results@.len() > 0 ==> r is Some && r->0.file_path == file_path
            && r->0.search_results == search_results,
{
    if search_results.len() == 0 {
        None
    } else {
        Some(FileSearchResult { file_path, search_results })
    }
}

/// Whether a search looks into a file of this name: not where the name
/// starts with a dot or is a directory's that is left out, nor where the
/// file has no extension or one that is left out.  Names and extensions are
/// taken in lower case.
pub open spec fn searched(name: Seq<char>, is_dir: bool, extension: Option<Seq<char>>) -> bool {
    &&& !(name.len() > 0 && name[0] == '.')
    &&& !crate::utils::ignored_dir(name)
    &&& (is_dir || (extension is Some && !crate::utils::ignored_ext(extension->0)))
}

/// Whether a search looks into a file or a directory of this name.
pub fn is_searched(name: &str, is_dir: bool, extension: Option<&str>) -> (r: bool)
    ensures
        r == searched(
            name@,
            is_dir,
            match extension {
                Some(e) => Some(e@),
                None => None,
            },
        ),
{
    let chars = str_chars(name);
    if chars.len() > 0 && chars[0] == '.' {
        return false;
    }
    if crate::utils::is_ignored_dir(name) {
        return false;
    }
    if is_dir {
        return true;
    }
    match extension {
        Some(e) => !crate::utils::is_ignored_ext(e),
        None => false,
    }
}

} // verus!
