//! Line search over a text: the configuration taken from command-line
//! arguments, case-sensitive and case-insensitive search, and the report
//! that is made of the matches.

use vstd::prelude::*;
use crate::text::{
    bool_text, decimal, has_substring, joined, lines_of, lowercase_of, push_bool, push_decimal,
    slice_views, str_contains, str_lines, str_to_lowercase, string_push_str,
};

verus! {

/// What to search for, where, and how.
pub struct Config {
    pub query: String,
    pub filename: String,
    pub case_sensitive: bool,
}

/// The text of the error that `Config::build` gives for too few arguments.
pub open spec fn not_enough_arguments() -> Seq<char> {
    "Not enough arguments"@
}

impl Config {
    /// Reads the query and the file name from the second and third
    /// argument. A fourth argument switches case sensitivity on exactly when
    /// it spells `true`; without it the search is case sensitive.
    pub fn build(args: &[String]) -> (r: Result<Config, &'static str>)
        ensures
            r is Err <==> args@.len() < 3,
            r matches Err(e) ==> e@ == not_enough_arguments(),
            r matches Ok(c) ==> {
                &&& c.query@ == args@[1]@
                &&& c.filename@ == args@[2]@
                &&& c.case_sensitive == (args@.len() > 3 ==> args@[3]@ == "true"@)
            },
    {
        if args.len() < 3 {
            return Err("Not enough arguments");
        }
        let case_sensitive = if args.len() > 3 {
            args[3] == "true".to_owned()
        } else {
            true
        };
        Ok(Config { query: args[1].clone(), filename: args[2].clone(), case_sensitive })
    }

    /// The one-line description of this configuration.
    pub open spec fn info(&self) -> Seq<char> {
        "query: "@ + self.query@ + ", filename: "@ + self.filename@ + ", case_sensitive: "@
            + bool_text(self.case_sensitive)
    }

    /// Describes the configuration in one line.
    pub fn display_info(&self) -> (r: String)
        ensures
            r@ == self.info(),
    {
        let mut out = String::new();
        string_push_str(&mut out, "query: ");
        string_push_str(&mut out, self.query.as_str());
        string_push_str(&mut out, ", filename: ");
        string_push_str(&mut out, self.filename.as_str());
        string_push_str(&mut out, ", case_sensitive: ");
        push_bool(&mut out, self.case_sensitive);
        assert(out@ =~= self.info());
        out
    }
}

/// Something found by a search that can be shown as a line of text.
pub trait SearchResult {
    /// The text that `format` produces.
    spec fn formatted(&self) -> Seq<char>;

    fn format(&self) -> (r: String)
        ensures
            r@ == self.formatted(),
    ;
}

/// One matching line and the number it is listed under.
#[derive(Debug, PartialEq)]
pub struct LineMatch {
    pub line_number: usize,
    pub content: String,
}

impl Clone for LineMatch {
    fn clone(&self) -> (r: Self)
        ensures
            r == *self,
    {
        LineMatch { line_number: self.line_number, content: self.content.clone() }
    }
}

impl LineMatch {
    pub fn new(line_number: usize, content: &str) -> (r: Self)
        ensures
            r.line_number == line_number,
            r.content@ == content@,
    {
        LineMatch { line_number, content: content.to_owned() }
    }
}

impl SearchResult for LineMatch {
    open spec fn formatted(&self) -> Seq<char> {
        "[Line"@ + decimal(self.line_number as nat) + "], "@ + self.content@
    }

    fn format(&self) -> (r: String) {
        let mut out = String::new();
        string_push_str(&mut out, "[Line");
        push_decimal(&mut out, self.line_number as u64);
        string_push_str(&mut out, "], ");
        string_push_str(&mut out, self.content.as_str());
        assert(out@ =~= self.formatted());
        out
    }
}

/// The formatted texts of a sequence of results.
pub open spec fn formatted_all<T: SearchResult>(results: Seq<T>) -> Seq<Seq<char>> {
    results.map_values(|t: T| t.formatted())
}

/// Formats every result and joins the texts with line feeds.
pub fn format_results<T: SearchResult>(results: &[T]) -> (r: String)
    ensures
        r@ == joined(formatted_all(results@), "\n"@),
{
    let mut out = String::new();
    let mut i: usize = 0;
    while i < results.len()
        invariant
            i <= results.len(),
            out@ == joined(formatted_all(results@.subrange(0, i as int)), "\n"@),
        decreases results.len() - i,
    {
        let ghost before = formatted_all(results@.subrange(0, i as int));
        let ghost after = formatted_all(results@.subrange(0, i + 1));
        assert(after.drop_last() =~= before);
        assert(after.last() == results@[i as int].formatted());
        if i > 0 {
            string_push_str(&mut out, "\n");
        }
        let piece = results[i].format();
        string_push_str(&mut out, piece.as_str());
        assert(out@ =~= joined(after, "\n"@));
        i += 1;
    }
    assert(results@.subrange(0, results@.len() as int) =~= results@);
    out
}

/// The test "contains `query`".
pub open spec fn contains_query(query: Seq<char>) -> spec_fn(Seq<char>) -> bool {
    |l: Seq<char>| has_substring(l, query)
}

/// The test "contains `query` when both are put in lower case".
pub open spec fn contains_query_ignoring_case(query: Seq<char>) -> spec_fn(Seq<char>) -> bool {
    |l: Seq<char>| has_substring(lowercase_of(l), lowercase_of(query))
}

/// The lines among `lines` that contain `query`.
pub open spec fn matching(lines: Seq<Seq<char>>, query: Seq<char>) -> Seq<Seq<char>> {
    lines.filter(contains_query(query))
}

/// The lines among `lines` that contain `query` when letter case is ignored.
pub open spec fn matching_ignoring_case(lines: Seq<Seq<char>>, query: Seq<char>) -> Seq<
    Seq<char>,
> {
    lines.filter(contains_query_ignoring_case(query))
}

/// The first of `lines` that contains `query`, if any does.
pub open spec fn first_matching(lines: Seq<Seq<char>>, query: Seq<char>) -> Option<Seq<char>> {
    let hits = matching(lines, query);
    if hits.len() > 0 {
        Some(hits[0])
    } else {
        None
    }
}

/// The first line of `contents` that contains `query`.
pub fn find_first_match<'a>(contents: &'a str, query: &str) -> (r: Option<&'a str>)
    ensures
        r is Some <==> first_matching(lines_of(contents@), query@) is Some,
        r matches Some(line) ==> Some(line@) == first_matching(lines_of(contents@), query@),
{
    let lines = str_lines(contents);
    let ghost all = lines_of(contents@);
    let ghost pred = contains_query(query@);
    let mut i: usize = 0;
    assert(all.subrange(0, 0).filter(pred).len() == 0) by {
        Seq::<Seq<char>>::lemma_filter_len(all.subrange(0, 0), pred);
    }
    while i < lines.len()
        invariant
            i <= lines.len(),
            slice_views(lines@) == all,
            all == lines_of(contents@),
            pred == contains_query(query@),
            all.subrange(0, i as int).filter(pred).len() == 0,
        decreases lines.len() - i,
    {
        let line = lines[i];
        assert(line@ == all[i as int]);
        let ghost head = all.subrange(0, i as int);
        proof {
            assert(all.subrange(0, i + 1) =~= head.push(line@));
            Seq::<Seq<char>>::lemma_filter_push(head, line@, pred);
        }
        if str_contains(line, query) {
            proof {
                let tail = all.subrange(i + 1, all.len() as int);
                assert(all =~= head.push(line@) + tail);
                Seq::<Seq<char>>::filter_distributes_over_add(head.push(line@), tail, pred);
                assert(head.push(line@).filter(pred) =~= seq![line@]);
                assert(matching(all, query@)[0] == line@);
            }
            return Some(line);
        }
        i += 1;
    }
    assert(all.subrange(0, all.len() as int) =~= all);
    None
}

/// The lines of `contents` that contain `query`, in order.
pub fn search<'a>(query: &str, contents: &'a str) -> (r: Vec<&'a str>)
    ensures
        slice_views(r@) == matching(lines_of(contents@), query@),
{
    let lines = str_lines(contents);
    let ghost all = lines_of(contents@);
    let ghost pred = contains_query(query@);
    let mut out: Vec<&'a str> = Vec::new();
    let mut i: usize = 0;
    assert(slice_views(out@) =~= all.subrange(0, 0).filter(pred)) by {
        Seq::<Seq<char>>::lemma_filter_len(all.subrange(0, 0), pred);
    }
    while i < lines.len()
        invariant
            i <= lines.len(),
            slice_views(lines@) == all,
            pred == contains_query(query@),
            slice_views(out@) == all.subrange(0, i as int).filter(pred),
        decreases lines.len() - i,
    {
        let line = lines[i];
        assert(line@ == all[i as int]);
        let ghost head = all.subrange(0, i as int);
        let ghost before = out@;
        proof {
            assert(all.subrange(0, i + 1) =~= head.push(line@));
            Seq::<Seq<char>>::lemma_filter_push(head, line@, pred);
        }
        if str_contains(line, query) {
            out.push(line);
            assert(slice_views(out@) =~= slice_views(before).push(line@));
        }
        i += 1;
    }
    assert(all.subrange(0, all.len() as int) =~= all);
    out
}

/// The lines of `contents` that contain `query` when both are put in lower
/// case, in order.
pub fn search_case_insensitive<'a>(query: &str, contents: &'a str) -> (r: Vec<&'a str>)
    ensures
        slice_views(r@) == matching_ignoring_case(lines_of(contents@), query@),
{
    let lines = str_lines(contents);
    let needle = str_to_lowercase(query);
    let ghost all = lines_of(contents@);
    let ghost pred = contains_query_ignoring_case(query@);
    let mut out: Vec<&'a str> = Vec::new();
    let mut i: usize = 0;
    assert(slice_views(out@) =~= all.subrange(0, 0).filter(pred)) by {
        Seq::<Seq<char>>::lemma_filter_len(all.subrange(0, 0), pred);
    }
    while i < lines.len()
        invariant
            i <= lines.len(),
            slice_views(lines@) == all,
            needle@ == lowercase_of(query@),
            pred == contains_query_ignoring_case(query@),
            slice_views(out@) == all.subrange(0, i as int).filter(pred),
        decreases lines.len() - i,
    {
        let line = lines[i];
        assert(line@ == all[i as int]);
        let ghost head = all.subrange(0, i as int);
        let ghost before = out@;
        proof {
            assert(all.subrange(0, i + 1) =~= head.push(line@));
            Seq::<Seq<char>>::lemma_filter_push(head, line@, pred);
        }
        let lowered = str_to_lowercase(line);
        if str_contains(lowered.as_str(), needle.as_str()) {
            out.push(line);
            assert(slice_views(out@) =~= slice_views(before).push(line@));
        }
        i += 1;
    }
    assert(all.subrange(0, all.len() as int) =~= all);
    out
}

/// The matches that a report lists: the lines found, each numbered by its
/// place among them, counted from zero.
pub open spec fn numbered(found: Seq<Seq<char>>) -> Seq<Seq<char>> {
    Seq::new(
        found.len(),
        |i: int| "[Line"@ + decimal(i as nat) + "], "@ + found[i],
    )
}

/// The lines that a search with `config` finds in `contents`.
pub open spec fn found_lines(config: &Config, contents: Seq<char>) -> Seq<Seq<char>> {
    if config.case_sensitive {
        matching(lines_of(contents), config.query@)
    } else {
        matching_ignoring_case(lines_of(contents), config.query@)
    }
}

/// Searches `contents` as `config` says and formats what was found, one
/// numbered match per line.
pub fn render_matches(config: &Config, contents: &str) -> (r: String)
    ensures
        r@ == joined(numbered(found_lines(config, contents@)), "\n"@),
{
    let results = if config.case_sensitive {
        search(config.query.as_str(), contents)
    } else {
        search_case_insensitive(config.query.as_str(), contents)
    };
    let ghost found = found_lines(config, contents@);
    let mut matched: Vec<LineMatch> = Vec::new();
    let mut i: usize = 0;
    while i < results.len()
        invariant
            i <= results.len(),
            slice_views(results@) == found,
            matched@.len() == i,
            forall|j: int|
                0 <= j < i ==> (#[trigger] matched@[j]).line_number == j && matched@[j].content@
                    == found[j],
        decreases results.len() - i,
    {
        assert(results@[i as int]@ == found[i as int]);
        matched.push(LineMatch::new(i, results[i]));
        i += 1;
    }
    assert(formatted_all(matched@) =~= numbered(found));
    format_results(matched.as_slice())
}

} // verus!
