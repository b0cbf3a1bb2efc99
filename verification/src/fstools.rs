//! The computing side of a file-system toolkit: what is done with names,
//! lines, bytes and listings once they are read; the caller reads and writes.

use vstd::prelude::*;
use std::path::{Path, PathBuf};
use crate::text::occurs_at;
use crate::text::{has_substring, slice_views, str_contains, string_push_str, string_views};

verus! {

/// Makes `std::path::PathBuf` known as a type whose inside is not read.
#[verifier::external_type_specification]
#[verifier::external_body]
pub struct ExPathBuf(PathBuf);

/// The name of the text that `str::replace` gives.
pub uninterp spec fn replaced(text: Seq<char>, from: Seq<char>, to: Seq<char>) -> Seq<char>;

/// The name of the number of matches that `str::matches` yields.
pub uninterp spec fn match_count(text: Seq<char>, from: Seq<char>) -> nat;

/// The name of the final component that `Path::file_name` finds in a path,
/// by the platform's way of cutting a path.
pub uninterp spec fn file_name_of(path: Seq<char>) -> Option<Seq<char>>;

/// The name of what `Path::is_absolute` says of a path, by the platform's
/// notion of an absolute path.
pub uninterp spec fn absolute(path: Seq<char>) -> bool;

/// Calls `Path::file_name` and copies out the name. The contract gives the
/// result a name and adds that a final component is a part of the path's
/// text.
#[verifier::external_body]
fn path_file_name(path: &str) -> (r: Option<String>)
    ensures
        r is Some <==> file_name_of(path@) is Some,
        r matches Some(name) ==> Some(name@) == file_name_of(path@),
        r matches Some(name) ==> has_substring(path@, name@),
{
    match Path::new(path).file_name() {
        Some(name) => Some(name.to_string_lossy().to_string()),
        None => None,
    }
}

/// Calls `str::replace` with a string pattern; its result is only named.
#[verifier::external_body]
fn str_replace(text: &str, from: &str, to: &str) -> (r: String)
    ensures
        r@ == replaced(text@, from@, to@),
{
    text.replace(from, to)
}

/// Calls `str::matches` with a string pattern and counts; only named.
#[verifier::external_body]
fn str_match_count(text: &str, from: &str) -> (r: usize)
    ensures
        r == match_count(text@, from@),
{
    text.matches(from).count()
}

/// The final component of a path, if it has one. A name that is returned
/// occurs in the path.
pub fn get_filename(path: &str) -> (r: Option<String>)
    ensures
        r is Some <==> file_name_of(path@) is Some,
        r matches Some(name) ==> Some(name@) == file_name_of(path@),
        r matches Some(name) ==> has_substring(path@, name@),
{
    path_file_name(path)
}

/// The place of the last `.` of `s`, or -1 where it has none.
pub open spec fn last_dot(s: Seq<char>) -> int
    decreases s.len(),
{
    if s.len() == 0 {
        -1
    } else if s.last() == '.' {
        s.len() - 1
    } else {
        last_dot(s.drop_last())
    }
}

/// What follows the last `.` of a file name, if that `.` is not its start.
pub open spec fn extension_in(name: Seq<char>) -> Option<Seq<char>> {
    let d = last_dot(name);
    if d <= 0 {
        None
    } else {
        Some(name.subrange(d + 1, name.len() as int))
    }
}

/// The place of the last `.` lies within the text, or is -1.
pub proof fn lemma_last_dot_bounds(s: Seq<char>)
    ensures
        -1 <= last_dot(s) < s.len(),
        last_dot(s) >= 0 ==> s[last_dot(s)] == '.',
    decreases s.len(),
{
    if s.len() > 0 && s.last() != '.' {
        lemma_last_dot_bounds(s.drop_last());
    }
}

/// No `.` follows the last `.`.
pub proof fn lemma_no_dot_after_last(s: Seq<char>, i: int)
    requires
        0 <= i < s.len(),
        last_dot(s) < i,
    ensures
        s[i] != '.',
    decreases s.len(),
{
    if s.last() != '.' && i < s.len() - 1 {
        assert(last_dot(s) == last_dot(s.drop_last()));
        lemma_no_dot_after_last(s.drop_last(), i);
        assert(s.drop_last()[i] == s[i]);
    }
}

/// An extension holds no `.`.
pub proof fn lemma_extension_has_no_dot(name: Seq<char>)
    requires
        extension_in(name) is Some,
    ensures
        !extension_in(name)->0.contains('.'),
{
    let d = last_dot(name);
    let e = extension_in(name)->0;
    lemma_last_dot_bounds(name);
    assert(e == name.subrange(d + 1, name.len() as int));
    assert forall|k: int| 0 <= k < e.len() implies e[k] != '.' by {
        lemma_no_dot_after_last(name, d + 1 + k);
        assert(e[k] == name[d + 1 + k]);
    }
}

/// The extension of a file name.
pub fn extension_of(name: &str) -> (r: Option<String>)
    ensures
        r is Some <==> extension_in(name@) is Some,
        r matches Some(e) ==> Some(e@) == extension_in(name@),
{
    let n = name.unicode_len();
    let mut dot: usize = 0;
    let mut found = false;
    let mut i: usize = 0;
    while i < n
        invariant
            i <= n,
            n == name@.len(),
            found ==> dot < i && dot == last_dot(name@.subrange(0, i as int)),
            !found ==> last_dot(name@.subrange(0, i as int)) == -1,
        decreases n - i,
    {
        let c = name.get_char(i);
        assert(name@.subrange(0, i + 1).drop_last() =~= name@.subrange(0, i as int));
        if c == '.' {
            dot = i;
            found = true;
        }
        i += 1;
    }
    assert(name@.subrange(0, n as int) =~= name@);
    if found && dot > 0 {
        let tail = name.substring_char(dot + 1, n);
        Some(tail.to_owned())
    } else {
        None
    }
}

/// The extension of the final component of a path, if the path has such a
/// component and the component has an extension.
pub fn get_extension(path: &str) -> (r: Option<String>)
    ensures
        r is Some <==> extension_of_path(path@) is Some,
        r matches Some(e) ==> Some(e@) == extension_of_path(path@),
        r matches Some(e) ==> !e@.contains('.'),
        r matches Some(e) ==> has_substring(path@, dotted(e@)),
        r matches Some(e) ==> exists|name: Seq<char>|
            has_substring(path@, name) && #[trigger] extension_in(name) == Some(e@),
        !path@.contains('.') ==> r is None,
{
    match path_file_name(path) {
        Some(name) => {
            let found = extension_of(name.as_str());
            proof {
                if found is Some {
                    lemma_extension_has_no_dot(name@);
                    lemma_name_ends_in_extension(name@);
                    lemma_substring_of_substring(path@, name@, dotted(found->0@));
                    lemma_dotted_holds_dot(path@, found->0@);
                }
            }
            found
        },
        None => None,
    }
}

/// The extension of the final component of a path.
pub open spec fn extension_of_path(path: Seq<char>) -> Option<Seq<char>> {
    match file_name_of(path) {
        Some(name) => extension_in(name),
        None => None,
    }
}

/// A `.` followed by `e`.
pub open spec fn dotted(e: Seq<char>) -> Seq<char> {
    seq!['.'] + e
}

/// What occurs in a part of a text occurs in the text.
pub proof fn lemma_substring_of_substring(a: Seq<char>, b: Seq<char>, c: Seq<char>)
    requires
        has_substring(a, b),
        has_substring(b, c),
    ensures
        has_substring(a, c),
{
    let i = choose|i: int| occurs_at(a, b, i);
    let j = choose|j: int| occurs_at(b, c, j);
    assert(a.subrange(i + j, i + j + c.len()) =~= b.subrange(j, j + c.len()));
    assert(occurs_at(a, c, i + j));
}

/// A file name ends in a `.` and its extension.
pub proof fn lemma_name_ends_in_extension(name: Seq<char>)
    requires
        extension_in(name) is Some,
    ensures
        has_substring(name, dotted(extension_in(name)->0)),
{
    let d = last_dot(name);
    let tail = dotted(extension_in(name)->0);
    lemma_last_dot_bounds(name);
    assert(name.subrange(d, d + tail.len()) =~= tail);
    assert(occurs_at(name, tail, d));
}

/// A text in which a `.` and something after it occur holds a `.`.
pub proof fn lemma_dotted_holds_dot(text: Seq<char>, e: Seq<char>)
    requires
        has_substring(text, dotted(e)),
    ensures
        text.contains('.'),
{
    let i = choose|i: int| occurs_at(text, dotted(e), i);
    assert(text.subrange(i, i + dotted(e).len())[0] == dotted(e)[0]);
    assert(text[i] == '.');
}

/// The text holds a path separator of some platform: `/` or `\`.
pub open spec fn holds_separator(text: Seq<char>) -> bool {
    text.contains('/') || text.contains('\\')
}

/// Whether the text holds a path separator of some platform.
pub fn has_separator(text: &str) -> (r: bool)
    ensures
        r == holds_separator(text@),
{
    let n = text.unicode_len();
    let mut i: usize = 0;
    while i < n
        invariant
            i <= n,
            n == text@.len(),
            forall|j: int| 0 <= j < i ==> text@[j] != '/' && text@[j] != '\\',
        decreases n - i,
    {
        let c = text.get_char(i);
        if c == '/' || c == '\\' {
            return true;
        }
        i += 1;
    }
    false
}

/// Calls `Path::with_extension`: the path with the extension of its final
/// component replaced. The call panics on an extension that holds a path
/// separator, so such an extension is not admitted. Nothing is promised of
/// the result, which is of a type whose inside is not read.
#[verifier::external_body]
pub fn change_extension(path: &str, new_ext: &str) -> (r: PathBuf)
    requires
        !holds_separator(new_ext@),
{
    Path::new(path).with_extension(new_ext)
}

/// Calls `Path::join`: `relative` put after `base`, or `relative` alone
/// where it is absolute. Nothing is promised of the result, which is of a
/// type whose inside is not read.
#[verifier::external_body]
pub fn join_paths(base: &str, relative: &str) -> (r: PathBuf) {
    Path::new(base).join(relative)
}

/// Calls `Path::is_absolute`; the contract only gives its result a name.
#[verifier::external_body]
pub fn is_absolute_path(path: &str) -> (r: bool)
    ensures
        r == absolute(path@),
{
    Path::new(path).is_absolute()
}

/// What is known of a file or a directory.
#[derive(Debug)]
pub struct FileInfo {
    pub path: String,
    pub size: u64,
    pub is_file: bool,
    pub is_dir: bool,
    pub is_readonly: bool,
}

impl Clone for FileInfo {
    fn clone(&self) -> (r: Self)
        ensures
            r == *self,
    {
        FileInfo {
            path: self.path.clone(),
            size: self.size,
            is_file: self.is_file,
            is_dir: self.is_dir,
            is_readonly: self.is_readonly,
        }
    }
}

/// The lines among `lines` that contain `pattern`, each with its number,
/// the first line being number 1.
pub open spec fn grep_matches(lines: Seq<Seq<char>>, pattern: Seq<char>) -> Seq<
    (nat, Seq<char>),
>
    decreases lines.len(),
{
    if lines.len() == 0 {
        Seq::empty()
    } else {
        let rest = grep_matches(lines.drop_last(), pattern);
        if has_substring(lines.last(), pattern) {
            rest.push((lines.len(), lines.last()))
        } else {
            rest
        }
    }
}

/// Numbers and texts of the matches as mathematical values.
pub open spec fn match_views(found: Seq<(usize, String)>) -> Seq<(nat, Seq<char>)> {
    found.map_values(|p: (usize, String)| (p.0 as nat, p.1@))
}

/// The lines that contain `pattern`, each with its number, the first line
/// being number 1.
pub fn grep_in_lines(lines: &Vec<String>, pattern: &str) -> (r: Vec<(usize, String)>)
    ensures
        match_views(r@) == grep_matches(string_views(lines@), pattern@),
{
    let ghost all = string_views(lines@);
    let mut out: Vec<(usize, String)> = Vec::new();
    let mut i: usize = 0;
    assert(match_views(out@) =~= grep_matches(all.subrange(0, 0), pattern@));
    while i < lines.len()
        invariant
            i <= lines.len(),
            all == string_views(lines@),
            match_views(out@) == grep_matches(all.subrange(0, i as int), pattern@),
        decreases lines.len() - i,
    {
        let ghost before = out@;
        proof {
            assert(all.subrange(0, i + 1).drop_last() =~= all.subrange(0, i as int));
            assert(all.subrange(0, i + 1).last() == lines@[i as int]@);
        }
        if str_contains(lines[i].as_str(), pattern) {
            out.push((i + 1, lines[i].clone()));
            assert(match_views(out@) =~= match_views(before).push(
                ((i + 1) as nat, lines@[i as int]@),
            ));
        }
        i += 1;
    }
    assert(all.subrange(0, all.len() as int) =~= all);
    out
}

/// What a reader does with the outcome of one read into `buffer`, of which
/// `n` bytes were filled: a read of nothing ends the reading, and any
/// other read adds the bytes as one chunk.
pub fn take_chunk(chunks: &mut Vec<Vec<u8>>, buffer: &[u8], n: usize) -> (go_on: bool)
    requires
        n <= buffer@.len(),
    ensures
        go_on == (n > 0),
        n == 0 ==> final(chunks)@ == old(chunks)@,
        n > 0 ==> {
            &&& final(chunks)@.len() == old(chunks)@.len() + 1
            &&& final(chunks)@.subrange(0, old(chunks)@.len() as int) == old(chunks)@
            &&& final(chunks)@.last()@ == buffer@.subrange(0, n as int)
        },
{
    if n == 0 {
        return false;
    }
    let mut chunk: Vec<u8> = Vec::new();
    let mut i: usize = 0;
    while i < n
        invariant
            i <= n,
            n <= buffer@.len(),
            chunk@ == buffer@.subrange(0, i as int),
        decreases n - i,
    {
        chunk.push(buffer[i]);
        assert(chunk@ =~= buffer@.subrange(0, i + 1));
        i += 1;
    }
    chunks.push(chunk);
    assert(chunks@.subrange(0, old(chunks)@.len() as int) =~= old(chunks)@);
    true
}

/// Every line followed by a line feed, one after another.
pub open spec fn terminated(lines: Seq<Seq<char>>) -> Seq<char>
    decreases lines.len(),
{
    if lines.len() == 0 {
        Seq::empty()
    } else {
        terminated(lines.drop_last()) + lines.last() + "\n"@
    }
}

/// The text of a file that holds these lines: every line followed by a
/// line feed.
pub fn lines_text(lines: &[&str]) -> (r: String)
    ensures
        r@ == terminated(slice_views(lines@)),
{
    let ghost all = slice_views(lines@);
    let mut out = String::new();
    let mut i: usize = 0;
    assert(out@ =~= terminated(all.subrange(0, 0)));
    while i < lines.len()
        invariant
            i <= lines.len(),
            all == slice_views(lines@),
            out@ == terminated(all.subrange(0, i as int)),
        decreases lines.len() - i,
    {
        proof {
            assert(all.subrange(0, i + 1).drop_last() =~= all.subrange(0, i as int));
            assert(all.subrange(0, i + 1).last() == lines@[i as int]@);
        }
        string_push_str(&mut out, lines[i]);
        string_push_str(&mut out, "\n");
        assert(out@ =~= terminated(all.subrange(0, i + 1)));
        i += 1;
    }
    assert(all.subrange(0, all.len() as int) =~= all);
    out
}

/// Replaces every match of `from` in `text` by `to` and counts the
/// matches.
pub fn replace_all(text: &str, from: &str, to: &str) -> (r: (usize, String))
    ensures
        r.0 == match_count(text@, from@),
        r.1@ == replaced(text@, from@, to@),
{
    let count = str_match_count(text, from);
    let changed = str_replace(text, from, to);
    (count, changed)
}

/// The sum of the sizes.
pub open spec fn sizes_sum(sizes: Seq<u64>) -> nat
    decreases sizes.len(),
{
    if sizes.len() == 0 {
        0
    } else {
        sizes_sum(sizes.drop_last()) + sizes.last() as nat
    }
}

/// A sum of sizes does not shrink when more sizes follow.
pub proof fn lemma_sizes_sum_grows(sizes: Seq<u64>, i: int)
    requires
        0 <= i <= sizes.len(),
    ensures
        sizes_sum(sizes.subrange(0, i)) <= sizes_sum(sizes),
    decreases sizes.len() - i,
{
    if i < sizes.len() {
        lemma_sizes_sum_grows(sizes, i + 1);
        assert(sizes.subrange(0, i + 1).drop_last() =~= sizes.subrange(0, i));
    } else {
        assert(sizes.subrange(0, i) =~= sizes);
    }
}

/// The total of the sizes of the files of a directory, or `None` where the
/// total does not fit in a `u64`.
pub fn total_size(sizes: &[u64]) -> (r: Option<u64>)
    ensures
        r is Some <==> sizes_sum(sizes@) <= u64::MAX,
        r matches Some(total) ==> total == sizes_sum(sizes@),
{
    let mut total: u64 = 0;
    let mut i: usize = 0;
    assert(sizes@.subrange(0, 0) =~= Seq::<u64>::empty());
    while i < sizes.len()
        invariant
            i <= sizes.len(),
            total == sizes_sum(sizes@.subrange(0, i as int)),
        decreases sizes.len() - i,
    {
        proof {
            assert(sizes@.subrange(0, i + 1).drop_last() =~= sizes@.subrange(0, i as int));
        }
        match total.checked_add(sizes[i]) {
            Some(next) => {
                total = next;
            },
            None => {
                proof {
                    lemma_sizes_sum_grows(sizes@, i + 1);
                }
                return None;
            },
        }
        i += 1;
    }
    assert(sizes@.subrange(0, sizes@.len() as int) =~= sizes@);
    Some(total)
}

/// One entry of a directory listing. The library does not look into the
/// path, which is of whatever type the caller lists with.
#[derive(Debug)]
pub struct EntryInfo<P> {
    pub path: P,
    pub is_dir: bool,
}

/// How far a walk through a directory and everything below it has come:
/// the entries that are still to be visited, the next one last, and the
/// files found so far. The entries of a directory are visited in the order
/// of its listing, and those of a subdirectory at the place where the
/// subdirectory stands in the listing.
#[derive(Debug)]
pub struct WalkState<P> {
    pub pending: Vec<EntryInfo<P>>,
    pub files: Vec<P>,
}

/// What a walk comes to when it goes on from the entries `todo`, the next
/// one first, with `files` found: the entries left, the files then found,
/// and the directory to list next, if the entries did not run out first.
pub open spec fn visit<P>(todo: Seq<EntryInfo<P>>, files: Seq<P>) -> (
    Seq<EntryInfo<P>>,
    Seq<P>,
    Option<P>,
)
    decreases todo.len(),
{
    if todo.len() == 0 {
        (todo, files, None)
    } else if todo[0].is_dir {
        (todo.drop_first(), files, Some(todo[0].path))
    } else {
        visit(todo.drop_first(), files.push(todo[0].path))
    }
}

impl<P> WalkState<P> {
    /// The entries still to be visited, the next one first.
    pub open spec fn todo(&self) -> Seq<EntryInfo<P>> {
        self.pending@.reverse()
    }

    /// The start of a walk from the directory `root`.
    pub fn start(root: P) -> (r: Self)
        ensures
            r.todo() == seq![EntryInfo { path: root, is_dir: true }],
            r.files@.len() == 0,
    {
        let mut pending: Vec<EntryInfo<P>> = Vec::new();
        pending.push(EntryInfo { path: root, is_dir: true });
        let r = WalkState { pending, files: Vec::new() };
        assert(r.todo() =~= seq![EntryInfo { path: root, is_dir: true }]);
        r
    }

    /// Goes on with the walk: notes the files that come next and stops at
    /// the first directory, which is to be listed next; `None` when the
    /// walk is over.
    pub fn next_directory(&mut self) -> (r: Option<P>)
        ensures
            (final(self).todo(), final(self).files@, r) == visit(
                old(self).todo(),
                old(self).files@,
            ),
    {
        loop
            invariant
                visit(self.todo(), self.files@) == visit(old(self).todo(), old(self).files@),
            decreases self.pending@.len(),
        {
            let ghost before = self.todo();
            match self.pending.pop() {
                None => {
                    assert(before.len() == 0);
                    return None;
                },
                Some(entry) => {
                    assert(self.todo() =~= before.drop_first());
                    assert(entry == before[0]);
                    if entry.is_dir {
                        return Some(entry.path);
                    }
                    self.files.push(entry.path);
                },
            }
        }
    }

    /// Takes in the listing of the directory that `next_directory` gave:
    /// its entries are visited next, in the order of the listing.
    pub fn absorb(&mut self, entries: Vec<EntryInfo<P>>)
        ensures
            final(self).todo() == entries@ + old(self).todo(),
            final(self).files == old(self).files,
    {
        let ghost all = entries@;
        let mut rest = entries;
        assert(self.todo() =~= all.subrange(all.len() as int, all.len() as int) + old(self).todo());
        while rest.len() > 0
            invariant
                rest@ == all.subrange(0, rest@.len() as int),
                rest@.len() <= all.len(),
                self.files == old(self).files,
                self.todo() == all.subrange(rest@.len() as int, all.len() as int) + old(self).todo(),
            decreases rest@.len(),
        {
            let ghost m = rest@.len() as int;
            let ghost before = self.todo();
            let entry = rest.pop().unwrap();
            assert(entry == all[m - 1]);
            self.pending.push(entry);
            assert(self.todo() =~= seq![entry] + before);
            assert(self.todo() =~= all.subrange(m - 1, all.len() as int) + old(self).todo());
            assert(rest@ =~= all.subrange(0, m - 1));
        }
        assert(all.subrange(0, all.len() as int) =~= all);
    }
}

} // verus!
