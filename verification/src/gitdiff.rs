//! Unified diffs: from the text that git prints to numbered lines.

use vstd::prelude::*;

use crate::text;
use crate::text::{
    before_first_text, chars_of, joined, next_word, parse_usize, split_lines, starts_with,
    string_of, text_eq,
};

verus! {

/// What a line of a diff is.
#[derive(Clone, Copy, Debug, PartialEq, Eq, Structural)]
pub enum DiffLineKind {
    FileHeader,
    HunkHeader,
    Context,
    Add,
    Delete,
    FileMetadata,
}

/// A line of a diff, with its numbers in the old and in the new file.
#[derive(Clone, Debug)]
pub struct DiffLine {
    pub kind: DiffLineKind,
    pub content: String,
    pub old_lineno: Option<usize>,
    pub new_lineno: Option<usize>,
    pub file_idx: usize,
}

#[verifier::ext_equal]
pub ghost struct DiffLineView {
    pub kind: DiffLineKind,
    pub content: Seq<char>,
    pub old_lineno: Option<usize>,
    pub new_lineno: Option<usize>,
    pub file_idx: int,
}

impl View for DiffLine {
    type V = DiffLineView;

    open spec fn view(&self) -> DiffLineView {
        DiffLineView {
            kind: self.kind,
            content: self.content@,
            old_lineno: self.old_lineno,
            new_lineno: self.new_lineno,
            file_idx: self.file_idx as int,
        }
    }
}

/// Diff lines, as their views.
pub open spec fn diff_lines_view(lines: Seq<DiffLine>) -> Seq<DiffLineView> {
    lines.map_values(|l: DiffLine| l@)
}

/// A diff as a list of lines.
#[derive(Clone, Debug)]
pub struct ParsedDiff {
    pub lines: Vec<DiffLine>,
    /// Index into `lines` where each file's diff starts (the "diff --git" line).
    pub file_start_indices: Vec<usize>,
    pub file_names: Vec<String>,
}

#[verifier::ext_equal]
pub ghost struct ParsedDiffView {
    pub lines: Seq<DiffLineView>,
    pub file_start_indices: Seq<int>,
    pub file_names: Seq<Seq<char>>,
}

pub open spec fn indices_view(indices: Seq<usize>) -> Seq<int> {
    indices.map_values(|i: usize| i as int)
}

impl View for ParsedDiff {
    type V = ParsedDiffView;

    open spec fn view(&self) -> ParsedDiffView {
        ParsedDiffView {
            lines: diff_lines_view(self.lines@),
            file_start_indices: indices_view(self.file_start_indices@),
            file_names: text::strings_view(self.file_names@),
        }
    }
}

/// What a refresh of a diff brought.
pub enum DiffEvent {
    Updated(ParsedDiff),
    Error(String),
}

// ── The grammar ────────────────────────────────────────────────────

/// Reading a diff: what has been read, and the numbers of the next lines.
#[verifier::ext_equal]
pub ghost struct DiffReader {
    pub diff: ParsedDiffView,
    pub file_idx: int,
    pub old_line: usize,
    pub new_line: usize,
    pub in_file: bool,
}

pub open spec fn new_reader() -> DiffReader {
    DiffReader {
        diff: ParsedDiffView {
            lines: Seq::empty(),
            file_start_indices: Seq::empty(),
            file_names: Seq::empty(),
        },
        file_idx: 0,
        old_line: 0,
        new_line: 0,
        in_file: false,
    }
}

/// The line number after `n`; numbers wrap around at the machine word.
pub open spec fn next_lineno(n: usize) -> usize {
    if n == usize::MAX {
        0
    } else {
        (n + 1) as usize
    }
}

/// The file's name in a line "diff --git a/path b/path", or the whole line.
pub open spec fn header_name(text: Seq<char>) -> Seq<char> {
    if "diff --git a/"@.is_prefix_of(text) {
        text::before_first(text.skip("diff --git a/"@.len() as int), " b/"@)
    } else {
        text
    }
}

/// The starting line numbers of "@@ -old[,count] +new[,count] @@".
pub open spec fn hunk_start(text: Seq<char>) -> Option<(usize, usize)> {
    if !"@@ "@.is_prefix_of(text) {
        None
    } else {
        let range = text::before_first(text.skip("@@ "@.len() as int), " @@"@);
        let words = text::words_of(range);
        if words.len() < 2 || words[0].len() == 0 || words[0][0] != '-' || words[1].len() == 0
            || words[1][0] != '+' {
            None
        } else {
            match (
                text::parse_number(up_to_comma(words[0].skip(1))),
                text::parse_number(up_to_comma(words[1].skip(1))),
            ) {
                (Some(old_start), Some(new_start)) => Some(
                    (old_start as usize, new_start as usize),
                ),
                _ => None,
            }
        }
    }
}

pub open spec fn up_to_comma(s: Seq<char>) -> Seq<char> {
    s.take(text::index_of_char(s, ',') as int)
}

impl DiffReader {
    /// Adds a line of the given kind, with or without its numbers.
    pub open spec fn with_line(
        self,
        kind: DiffLineKind,
        content: Seq<char>,
        in_old: bool,
        in_new: bool,
    ) -> DiffReader {
        DiffReader {
            diff: ParsedDiffView {
                lines: self.diff.lines.push(
                    DiffLineView {
                        kind,
                        content,
                        old_lineno: if in_old {
                            Some(self.old_line)
                        } else {
                            None
                        },
                        new_lineno: if in_new {
                            Some(self.new_line)
                        } else {
                            None
                        },
                        file_idx: self.file_idx,
                    },
                ),
                ..self.diff
            },
            old_line: if in_old {
                next_lineno(self.old_line)
            } else {
                self.old_line
            },
            new_line: if in_new {
                next_lineno(self.new_line)
            } else {
                self.new_line
            },
            ..self
        }
    }

    /// A new file begins.
    pub open spec fn with_file(self, text: Seq<char>) -> DiffReader {
        DiffReader {
            diff: ParsedDiffView {
                file_start_indices: self.diff.file_start_indices.push(
                    self.diff.lines.len() as int,
                ),
                file_names: self.diff.file_names.push(header_name(text)),
                ..self.diff
            },
            file_idx: if self.in_file {
                self.file_idx + 1
            } else {
                self.file_idx
            },
            in_file: true,
            ..self
        }.with_line(DiffLineKind::FileHeader, text, false, false)
    }

    /// A hunk begins; its header sets the line numbers where it can be read.
    pub open spec fn with_hunk(self, text: Seq<char>) -> DiffReader {
        match hunk_start(text) {
            Some((old_start, new_start)) => DiffReader {
                old_line: old_start,
                new_line: new_start,
                ..self
            },
            None => self,
        }.with_line(DiffLineKind::HunkHeader, text, false, false)
    }

    /// Reads one line.
    pub open spec fn step(self, text: Seq<char>) -> DiffReader {
        if "diff --git "@.is_prefix_of(text) {
            self.with_file(text)
        } else if "--- "@.is_prefix_of(text) || "+++ "@.is_prefix_of(text)
            || "index "@.is_prefix_of(text) {
            self.with_line(DiffLineKind::FileMetadata, text, false, false)
        } else if "@@ "@.is_prefix_of(text) {
            self.with_hunk(text)
        } else if text.len() > 0 && text[0] == '+' {
            self.with_line(DiffLineKind::Add, text.skip(1), false, true)
        } else if text.len() > 0 && text[0] == '-' {
            self.with_line(DiffLineKind::Delete, text.skip(1), true, false)
        } else if text.len() > 0 && text[0] == ' ' {
            self.with_line(DiffLineKind::Context, text.skip(1), true, true)
        } else if text == "\\ No newline at end of file"@ {
            self.with_line(DiffLineKind::FileMetadata, text, false, false)
        } else if self.in_file {
            self.with_line(DiffLineKind::Context, text, true, true)
        } else {
            self
        }
    }

    /// Reads lines in order.
    pub open spec fn read(self, lines: Seq<Seq<char>>) -> DiffReader
        decreases lines.len(),
    {
        if lines.len() == 0 {
            self
        } else {
            self.read(lines.drop_last()).step(lines.last())
        }
    }
}

/// The diff that a text spells.
pub open spec fn diff_of(raw: Seq<char>) -> ParsedDiffView {
    new_reader().read(text::lines_of(raw)).diff
}

// ── The parser ─────────────────────────────────────────────────────

struct Reader {
    diff: ParsedDiff,
    file_idx: usize,
    old_line: usize,
    new_line: usize,
    in_file: bool,
}

impl View for Reader {
    type V = DiffReader;

    closed spec fn view(&self) -> DiffReader {
        DiffReader {
            diff: self.diff@,
            file_idx: self.file_idx as int,
            old_line: self.old_line,
            new_line: self.new_line,
            in_file: self.in_file,
        }
    }
}

fn bump(n: usize) -> (next: usize)
    ensures
        next == next_lineno(n),
{
    if n == usize::MAX {
        0
    } else {
        n + 1
    }
}

impl Reader {
    fn push_line(&mut self, kind: DiffLineKind, content: String, in_old: bool, in_new: bool)
        ensures
            final(self)@ == old(self)@.with_line(kind, content@, in_old, in_new),
    {
        let ghost before = self.diff.lines@;
        let line = DiffLine {
            kind,
            content,
            old_lineno: if in_old {
                Some(self.old_line)
            } else {
                None
            },
            new_lineno: if in_new {
                Some(self.new_line)
            } else {
                None
            },
            file_idx: self.file_idx,
        };
        self.diff.lines.push(line);
        assert(diff_lines_view(self.diff.lines@) =~= diff_lines_view(before).push(line@));
        if in_old {
            self.old_line = bump(self.old_line);
        }
        if in_new {
            self.new_line = bump(self.new_line);
        }
    }

    fn push_file(&mut self, text: &Vec<char>)
        requires
            old(self)@.in_file ==> old(self)@.file_idx < old(self)@.diff.file_names.len(),
        ensures
            final(self)@ == old(self)@.with_file(text@),
    {
        let ghost before = self.diff;
        if self.in_file {
            assert(before@.file_names.len() == before.file_names@.len());
            let known = self.diff.file_names.len();
            assert(self.file_idx < known);
            self.file_idx += 1;
        }
        self.in_file = true;
        let start = self.diff.lines.len();
        self.diff.file_start_indices.push(start);
        let name = file_name(text);
        self.diff.file_names.push(name);
        assert(indices_view(self.diff.file_start_indices@) =~= indices_view(
            before.file_start_indices@,
        ).push(start as int));
        assert(text::strings_view(self.diff.file_names@) =~= text::strings_view(before.file_names@).push(
            name@,
        ));
        let content = whole(text);
        self.push_line(DiffLineKind::FileHeader, content, false, false);
    }

    fn step(&mut self, text: &Vec<char>)
        requires
            old(self)@.in_file ==> old(self)@.file_idx < old(self)@.diff.file_names.len(),
        ensures
            final(self)@ == old(self)@.step(text@),
    {
        if starts_with(text.as_slice(), "diff --git ") {
            self.push_file(text);
        } else if starts_with(text.as_slice(), "--- ") || starts_with(text.as_slice(), "+++ ")
            || starts_with(text.as_slice(), "index ") {
            self.push_line(DiffLineKind::FileMetadata, whole(text), false, false);
        } else if starts_with(text.as_slice(), "@@ ") {
            if let Some((old_start, new_start)) = hunk_header_of(text) {
                self.old_line = old_start;
                self.new_line = new_start;
            }
            self.push_line(DiffLineKind::HunkHeader, whole(text), false, false);
        } else if text.len() > 0 && text[0] == '+' {
            self.push_line(DiffLineKind::Add, after_first(text), false, true);
        } else if text.len() > 0 && text[0] == '-' {
            self.push_line(DiffLineKind::Delete, after_first(text), true, false);
        } else if text.len() > 0 && text[0] == ' ' {
            self.push_line(DiffLineKind::Context, after_first(text), true, true);
        } else {
            let content = whole(text);
            if text_eq(content.as_str(), "\\ No newline at end of file") {
                self.push_line(DiffLineKind::FileMetadata, content, false, false);
            } else if self.in_file {
                // A context line without its leading space: not well-formed, but shown
                self.push_line(DiffLineKind::Context, content, true, true);
            }
        }
    }
}

fn whole(text: &Vec<char>) -> (s: String)
    ensures
        s@ == text@,
{
    let s = string_of(text.as_slice(), 0, text.len());
    assert(s@ =~= text@);
    s
}

fn after_first(text: &Vec<char>) -> (s: String)
    requires
        text@.len() > 0,
    ensures
        s@ == text@.skip(1),
{
    let s = string_of(text.as_slice(), 1, text.len());
    assert(s@ =~= text@.skip(1));
    s
}

fn tail_of(text: &Vec<char>, from: usize) -> (tail: Vec<char>)
    requires
        from <= text@.len(),
    ensures
        tail@ == text@.skip(from as int),
{
    let mut tail: Vec<char> = Vec::new();
    let mut i: usize = from;
    while i < text.len()
        invariant
            from <= i <= text@.len(),
            tail@ == text@.subrange(from as int, i as int),
        decreases text@.len() - i,
    {
        tail.push(text[i]);
        i += 1;
    }
    assert(tail@ =~= text@.skip(from as int));
    tail
}

fn file_name(text: &Vec<char>) -> (name: String)
    ensures
        name@ == header_name(text@),
{
    if starts_with(text.as_slice(), "diff --git a/") {
        proof {
            reveal_strlit("diff --git a/");
        }
        let rest = tail_of(text, 13);
        before_first_text(rest.as_slice(), " b/")
    } else {
        whole(text)
    }
}

/// The number before the first comma of `range[from..to]`, without its first character.
fn start_number(range: &Vec<char>, from: usize, to: usize) -> (n: Option<usize>)
    requires
        from < to <= range@.len(),
    ensures
        text::parse_number(up_to_comma(range@.subrange(from as int, to as int).skip(1))) == (match n {
            Some(v) => Some(v as nat),
            None => None,
        }),
{
    let ghost word = range@.subrange(from as int, to as int).skip(1);
    let mut end: usize = from + 1;
    while end < to && range[end] != ','
        invariant
            from + 1 <= end <= to <= range@.len(),
            word == range@.subrange(from as int, to as int).skip(1),
            forall|k: int| 0 <= k < end - from - 1 ==> #[trigger] word[k] != ',',
        decreases to - end,
    {
        assert(word[end - from - 1] == range@[end as int]);
        end += 1;
    }
    proof {
        crate::text::lemma_index_of_char_is(word, ',', end - from - 1);
        assert(up_to_comma(word) =~= range@.subrange(from + 1, end as int));
    }
    parse_usize(range.as_slice(), from + 1, end)
}

fn hunk_header_of(text: &Vec<char>) -> (start: Option<(usize, usize)>)
    ensures
        start == hunk_start(text@),
{
    if !starts_with(text.as_slice(), "@@ ") {
        return None;
    }
    proof {
        reveal_strlit("@@ ");
    }
    let inner = tail_of(text, 3);
    let range_text = before_first_text(inner.as_slice(), " @@");
    let range = chars_of(range_text.as_str());
    let (a0, a1) = next_word(range.as_slice(), 0);
    assert(range@.skip(0) =~= range@);
    if a0 == a1 {
        return None;
    }
    let (b0, b1) = next_word(range.as_slice(), a1);
    let ghost words = text::words_of(range@);
    assert(words[0] == range@.subrange(a0 as int, a1 as int));
    if b0 == b1 {
        assert(words.len() == 1);
        return None;
    }
    assert(words[1] == range@.subrange(b0 as int, b1 as int));
    if range[a0] != '-' || range[b0] != '+' {
        return None;
    }
    match (start_number(&range, a0, a1), start_number(&range, b0, b1)) {
        (Some(old_start), Some(new_start)) => Some((old_start, new_start)),
        _ => None,
    }
}

/// Parse "@@ -old_start[,old_count] +new_start[,new_count] @@" into (old_start, new_start).
pub fn parse_hunk_header(line: &str) -> (start: Option<(usize, usize)>)
    ensures
        start == hunk_start(line@),
{
    let text = chars_of(line);
    hunk_header_of(&text)
}

/// Reads a unified diff.
pub fn parse_unified_diff(raw: &str) -> (diff: ParsedDiff)
    ensures
        diff@ == diff_of(raw@),
{
    let lines = split_lines(raw);
    let ghost all = text::lines_of(raw@);
    let mut reader = Reader {
        diff: ParsedDiff {
            lines: Vec::new(),
            file_start_indices: Vec::new(),
            file_names: Vec::new(),
        },
        file_idx: 0,
        old_line: 0,
        new_line: 0,
        in_file: false,
    };
    assert(reader@ =~= new_reader());
    let mut i: usize = 0;
    assert(all.take(0) =~= Seq::<Seq<char>>::empty());
    while i < lines.len()
        invariant
            i <= lines@.len(),
            all == text::chars_view(lines@),
            reader@ == new_reader().read(all.take(i as int)),
        decreases lines@.len() - i,
    {
        proof {
            lemma_reader_shape(all.take(i as int));
        }
        reader.step(&lines[i]);
        i += 1;
        assert(all.take(i as int).drop_last() =~= all.take(i - 1));
    }
    assert(all.take(i as int) =~= all);
    reader.diff
}

// ── Laws ───────────────────────────────────────────────────────────

/// The shape of a diff: one start and one name per file, starts in order and on headers, and
/// every line marked with the file whose section it stands in.
pub open spec fn well_shaped(diff: ParsedDiffView) -> bool {
    &&& diff.file_names.len() == diff.file_start_indices.len()
    &&& forall|f: int|
        0 <= f < diff.file_start_indices.len() ==> {
            &&& 0 <= #[trigger] diff.file_start_indices[f] < diff.lines.len()
            &&& diff.lines[diff.file_start_indices[f]].kind == DiffLineKind::FileHeader
        }
    &&& forall|f: int, g: int|
        0 <= f < g < diff.file_start_indices.len() ==> #[trigger] diff.file_start_indices[f]
            < #[trigger] diff.file_start_indices[g]
    &&& forall|i: int|
        0 <= i < diff.lines.len() ==> #[trigger] file_of_line(diff, i, diff.lines[i].file_idx)
}

/// Whether line `i` belongs to file `f`: it stands at or after that file's start (lines before
/// any file count to the first), and before the next file's start.
pub open spec fn file_of_line(diff: ParsedDiffView, i: int, f: int) -> bool {
    let starts = diff.file_start_indices;
    &&& 0 <= f
    &&& f < starts.len() || f == 0
    &&& 0 < f ==> starts[f] <= i
    &&& f + 1 < starts.len() ==> i < starts[f + 1]
}

spec fn reader_ok(r: DiffReader) -> bool {
    &&& well_shaped(r.diff)
    &&& r.in_file == (r.diff.file_names.len() > 0)
    &&& r.file_idx == (if r.in_file {
        r.diff.file_names.len() - 1
    } else {
        0
    })
}

proof fn lemma_with_line(r: DiffReader, kind: DiffLineKind, content: Seq<char>, a: bool, b: bool)
    requires
        reader_ok(r),
    ensures
        reader_ok(r.with_line(kind, content, a, b)),
{
    let after = r.with_line(kind, content, a, b);
    let starts = r.diff.file_start_indices;
    assert forall|f: int| 0 <= f < starts.len() implies {
        &&& 0 <= #[trigger] after.diff.file_start_indices[f] < after.diff.lines.len()
        &&& after.diff.lines[after.diff.file_start_indices[f]].kind == DiffLineKind::FileHeader
    } by {
        assert(0 <= starts[f] < r.diff.lines.len());
    }
    assert forall|i: int| 0 <= i < after.diff.lines.len() implies #[trigger] file_of_line(
        after.diff,
        i,
        after.diff.lines[i].file_idx,
    ) by {
        if i < r.diff.lines.len() {
            assert(file_of_line(r.diff, i, r.diff.lines[i].file_idx));
        } else if r.in_file {
            assert(starts[r.file_idx] < r.diff.lines.len());
        }
    }
}

proof fn lemma_with_file(r: DiffReader, text: Seq<char>)
    requires
        reader_ok(r),
    ensures
        reader_ok(r.with_file(text)),
{
    let after = r.with_file(text);
    let starts = r.diff.file_start_indices;
    let new_starts = after.diff.file_start_indices;
    assert forall|f: int| 0 <= f < new_starts.len() implies {
        &&& 0 <= #[trigger] new_starts[f] < after.diff.lines.len()
        &&& after.diff.lines[new_starts[f]].kind == DiffLineKind::FileHeader
    } by {
        if f < starts.len() {
            assert(0 <= starts[f] < r.diff.lines.len());
        }
    }
    assert forall|f: int, g: int| 0 <= f < g < new_starts.len() implies #[trigger] new_starts[f]
        < #[trigger] new_starts[g] by {
        if g == starts.len() {
            assert(starts[f] < r.diff.lines.len());
        }
    }
    assert forall|i: int| 0 <= i < after.diff.lines.len() implies #[trigger] file_of_line(
        after.diff,
        i,
        after.diff.lines[i].file_idx,
    ) by {
        if i < r.diff.lines.len() {
            let f = r.diff.lines[i].file_idx;
            assert(after.diff.lines[i].file_idx == f);
            assert(file_of_line(r.diff, i, f));
            if f < starts.len() && 0 < f {
                assert(new_starts[f] == starts[f]);
            }
            if f + 1 < starts.len() {
                assert(new_starts[f + 1] == starts[f + 1]);
            }
        }
    }
}

proof fn lemma_reader_ok(lines: Seq<Seq<char>>)
    ensures
        reader_ok(new_reader().read(lines)),
        new_reader().read(lines).diff.lines.len() <= lines.len(),
    decreases lines.len(),
{
    if lines.len() > 0 {
        lemma_reader_ok(lines.drop_last());
        let r = new_reader().read(lines.drop_last());
        let text = lines.last();
        lemma_with_file(r, text);
        let h = match hunk_start(text) {
            Some((old_start, new_start)) => DiffReader {
                old_line: old_start,
                new_line: new_start,
                ..r
            },
            None => r,
        };
        assert(reader_ok(h));
        lemma_with_line(h, DiffLineKind::HunkHeader, text, false, false);
        lemma_with_line(r, DiffLineKind::FileMetadata, text, false, false);
        lemma_with_line(r, DiffLineKind::Add, text.skip(1), false, true);
        lemma_with_line(r, DiffLineKind::Delete, text.skip(1), true, false);
        lemma_with_line(r, DiffLineKind::Context, text.skip(1), true, true);
        lemma_with_line(r, DiffLineKind::Context, text, true, true);
    }
}

proof fn lemma_reader_shape(lines: Seq<Seq<char>>)
    ensures
        new_reader().read(lines).in_file ==> new_reader().read(lines).file_idx
            < new_reader().read(lines).diff.file_names.len(),
{
    lemma_reader_ok(lines);
}

/// Every diff that comes out of the parser is well shaped, whatever the text was: jumping to
/// a file always lands on its header, and every line knows its file.
pub proof fn parsed_diff_is_well_shaped(raw: Seq<char>)
    ensures
        well_shaped(diff_of(raw)),
{
    lemma_reader_ok(text::lines_of(raw));
}

/// A diff never has more lines than the text it was read from.
pub proof fn parsed_diff_adds_no_lines(raw: Seq<char>)
    ensures
        diff_of(raw).lines.len() <= text::lines_of(raw).len(),
{
    lemma_reader_ok(text::lines_of(raw));
}

/// Which numbers a line carries follows from its kind: context lines stand in both files,
/// added lines in the new one only, deleted lines in the old one only, headers in none.
pub open spec fn numbers_fit_kind(line: DiffLineView) -> bool {
    &&& line.old_lineno is Some == (line.kind == DiffLineKind::Context || line.kind
        == DiffLineKind::Delete)
    &&& line.new_lineno is Some == (line.kind == DiffLineKind::Context || line.kind
        == DiffLineKind::Add)
}

proof fn lemma_numbers_fit(lines: Seq<Seq<char>>)
    ensures
        forall|i: int|
            0 <= i < new_reader().read(lines).diff.lines.len() ==> numbers_fit_kind(
                #[trigger] new_reader().read(lines).diff.lines[i],
            ),
    decreases lines.len(),
{
    if lines.len() > 0 {
        lemma_numbers_fit(lines.drop_last());
        let r = new_reader().read(lines.drop_last());
        let after = r.step(lines.last());
        assert forall|i: int| 0 <= i < after.diff.lines.len() implies numbers_fit_kind(
            #[trigger] after.diff.lines[i],
        ) by {
            if i < r.diff.lines.len() {
                assert(after.diff.lines[i] == r.diff.lines[i]);
            }
        }
    }
}

/// The numbers of every parsed line fit its kind.
pub proof fn parsed_line_numbers_fit_kinds(raw: Seq<char>)
    ensures
        forall|i: int|
            0 <= i < diff_of(raw).lines.len() ==> numbers_fit_kind(
                #[trigger] diff_of(raw).lines[i],
            ),
{
    lemma_numbers_fit(text::lines_of(raw));
}

/// Two diffs put together: the files and lines of the second count on from those of the first.
pub open spec fn joined_diffs(a: ParsedDiffView, b: ParsedDiffView) -> ParsedDiffView {
    ParsedDiffView {
        lines: a.lines + b.lines.map_values(
            |l: DiffLineView|
                DiffLineView { file_idx: l.file_idx + a.file_names.len(), ..l },
        ),
        file_start_indices: a.file_start_indices + b.file_start_indices.map_values(
            |i: int| i + a.lines.len(),
        ),
        file_names: a.file_names + b.file_names,
    }
}

pub open spec fn has_number(line: DiffLineView) -> bool {
    line.kind == DiffLineKind::Add || line.kind == DiffLineKind::Delete || line.kind
        == DiffLineKind::Context
}

/// Whether a line is the header of a hunk and says where the hunk starts.
pub open spec fn opens_hunk(line: DiffLineView) -> bool {
    line.kind == DiffLineKind::HunkHeader && hunk_start(line.content) is Some
}

/// Whether one of the lines is the header of a hunk that says where the hunk starts.
pub open spec fn some_hunk_opened(lines: Seq<DiffLineView>) -> bool {
    exists|j: int| 0 <= j < lines.len() && opens_hunk(#[trigger] lines[j])
}

/// Whether every numbered line follows the header of a hunk that says where the hunk starts.
pub open spec fn numbered_by_hunks(diff: ParsedDiffView) -> bool {
    forall|i: int|
        0 <= i < diff.lines.len() && has_number(#[trigger] diff.lines[i]) ==> some_hunk_opened(
            diff.lines.take(i),
        )
}

proof fn lemma_reads_in_parts(r: DiffReader, a: Seq<Seq<char>>, b: Seq<Seq<char>>)
    ensures
        r.read(a + b) == r.read(a).read(b),
    decreases b.len(),
{
    if b.len() == 0 {
        assert(a + b =~= a);
    } else {
        assert((a + b).drop_last() =~= a + b.drop_last());
        lemma_reads_in_parts(r, a, b.drop_last());
    }
}

/// Whether `both` has read on from `a` what `alone` has read from the start.
spec fn reads_on(a: DiffReader, both: DiffReader, alone: DiffReader) -> bool {
    &&& both.diff == joined_diffs(a.diff, alone.diff)
    &&& both.in_file && alone.in_file
    &&& both.file_idx == alone.file_idx + a.diff.file_names.len()
    &&& some_hunk_opened(alone.diff.lines) ==> both.old_line == alone.old_line && both.new_line
        == alone.new_line
}

proof fn lemma_line_reads_on(
    a: DiffReader,
    both: DiffReader,
    alone: DiffReader,
    kind: DiffLineKind,
    content: Seq<char>,
    in_old: bool,
    in_new: bool,
)
    requires
        both.diff == joined_diffs(a.diff, alone.diff),
        both.in_file && alone.in_file,
        both.file_idx == alone.file_idx + a.diff.file_names.len(),
        in_old || in_new || opens_hunk(
            alone.with_line(kind, content, in_old, in_new).diff.lines.last(),
        ) || some_hunk_opened(alone.diff.lines) ==> both.old_line == alone.old_line
            && both.new_line == alone.new_line,
    ensures
        reads_on(
            a,
            both.with_line(kind, content, in_old, in_new),
            alone.with_line(kind, content, in_old, in_new),
        ),
{
    let both2 = both.with_line(kind, content, in_old, in_new);
    let alone2 = alone.with_line(kind, content, in_old, in_new);
    assert(both2.diff.lines =~= joined_diffs(a.diff, alone2.diff).lines);
    if some_hunk_opened(alone2.diff.lines) {
        let j = choose|j: int|
            0 <= j < alone2.diff.lines.len() && opens_hunk(#[trigger] alone2.diff.lines[j]);
        if j < alone.diff.lines.len() {
            assert(opens_hunk(alone.diff.lines[j]));
        }
    }
}

proof fn lemma_file_reads_on(a: DiffReader, both: DiffReader, alone: DiffReader, text: Seq<char>)
    requires
        both.diff == joined_diffs(a.diff, alone.diff),
        both.in_file == alone.in_file || alone.diff.lines.len() == 0 && !alone.in_file,
        (both.file_idx + (if both.in_file {
            1int
        } else {
            0
        })) == (alone.file_idx + (if alone.in_file {
            1int
        } else {
            0
        })) + a.diff.file_names.len(),
        some_hunk_opened(alone.diff.lines) ==> both.old_line == alone.old_line && both.new_line
            == alone.new_line,
    ensures
        reads_on(a, both.with_file(text), alone.with_file(text)),
{
    let both1 = DiffReader {
        diff: ParsedDiffView {
            file_start_indices: both.diff.file_start_indices.push(both.diff.lines.len() as int),
            file_names: both.diff.file_names.push(header_name(text)),
            ..both.diff
        },
        file_idx: if both.in_file {
            both.file_idx + 1
        } else {
            both.file_idx
        },
        in_file: true,
        ..both
    };
    let alone1 = DiffReader {
        diff: ParsedDiffView {
            file_start_indices: alone.diff.file_start_indices.push(alone.diff.lines.len() as int),
            file_names: alone.diff.file_names.push(header_name(text)),
            ..alone.diff
        },
        file_idx: if alone.in_file {
            alone.file_idx + 1
        } else {
            alone.file_idx
        },
        in_file: true,
        ..alone
    };
    assert(both1.diff =~= joined_diffs(a.diff, alone1.diff));
    lemma_line_reads_on(a, both1, alone1, DiffLineKind::FileHeader, text, false, false);
}

proof fn lemma_step_reads_on(a: DiffReader, both: DiffReader, alone: DiffReader, text: Seq<char>)
    requires
        reads_on(a, both, alone),
        numbered_by_hunks(alone.step(text).diff),
    ensures
        reads_on(a, both.step(text), alone.step(text)),
{
    let after = alone.step(text);
    assert(after.diff.lines.len() == alone.diff.lines.len() + 1);
    assert(after.diff.lines.take(alone.diff.lines.len() as int) =~= alone.diff.lines);
    assert(has_number(after.diff.lines[alone.diff.lines.len() as int]) ==> some_hunk_opened(
        alone.diff.lines,
    ));
    if "diff --git "@.is_prefix_of(text) {
        lemma_file_reads_on(a, both, alone, text);
    } else if "--- "@.is_prefix_of(text) || "+++ "@.is_prefix_of(text) || "index "@.is_prefix_of(
        text,
    ) {
        lemma_line_reads_on(a, both, alone, DiffLineKind::FileMetadata, text, false, false);
    } else if "@@ "@.is_prefix_of(text) {
        match hunk_start(text) {
            Some((old_line, new_line)) => {
                let b = DiffReader { old_line, new_line, ..both };
                let c = DiffReader { old_line, new_line, ..alone };
                lemma_line_reads_on(a, b, c, DiffLineKind::HunkHeader, text, false, false);
            },
            None => {
                lemma_line_reads_on(a, both, alone, DiffLineKind::HunkHeader, text, false, false);
            },
        }
    } else if text.len() > 0 && text[0] == '+' {
        lemma_line_reads_on(a, both, alone, DiffLineKind::Add, text.skip(1), false, true);
    } else if text.len() > 0 && text[0] == '-' {
        lemma_line_reads_on(a, both, alone, DiffLineKind::Delete, text.skip(1), true, false);
    } else if text.len() > 0 && text[0] == ' ' {
        lemma_line_reads_on(a, both, alone, DiffLineKind::Context, text.skip(1), true, true);
    } else if text == "\\ No newline at end of file"@ {
        lemma_line_reads_on(a, both, alone, DiffLineKind::FileMetadata, text, false, false);
    } else {
        lemma_line_reads_on(a, both, alone, DiffLineKind::Context, text, true, true);
    }
}

proof fn lemma_lines_read_on(before: Seq<Seq<char>>, lines: Seq<Seq<char>>)
    requires
        lines.len() > 0,
        "diff --git "@.is_prefix_of(lines[0]),
        numbered_by_hunks(new_reader().read(lines).diff),
    ensures
        reads_on(
            new_reader().read(before),
            new_reader().read(before).read(lines),
            new_reader().read(lines),
        ),
    decreases lines.len(),
{
    let a = new_reader().read(before);
    let first = lines.drop_last();
    let both = a.read(first);
    let alone = new_reader().read(first);
    if first.len() == 0 {
        lemma_reader_ok(before);
        assert(lines.last() == lines[0]);
        assert(both.diff =~= joined_diffs(a.diff, alone.diff));
        lemma_file_reads_on(a, both, alone, lines[0]);
    } else {
        let after = alone.step(lines.last()).diff;
        assert forall|i: int|
            0 <= i < alone.diff.lines.len() && has_number(
                #[trigger] alone.diff.lines[i],
            ) implies some_hunk_opened(alone.diff.lines.take(i)) by {
            assert(after.lines[i] == alone.diff.lines[i]);
            assert(after.lines.take(i) =~= alone.diff.lines.take(i));
        }
        lemma_lines_read_on(before, first);
        lemma_step_reads_on(a, both, alone, lines.last());
    }
}

/// A text made of two diffs reads as the two put together, where the first ends with a line
/// end, the second begins with a file, and the numbered lines of the second follow a header
/// that says where their hunk starts.
pub proof fn two_diffs_read_as_both(a: Seq<char>, b: Seq<char>)
    requires
        a.len() == 0 || a.last() == '\n',
        "diff --git "@.is_prefix_of(b),
        numbered_by_hunks(diff_of(b)),
    ensures
        diff_of(a + b) == joined_diffs(diff_of(a), diff_of(b)),
{
    reveal_strlit("diff --git ");
    let lines = text::lines_of(b);
    let n = text::index_of_char(b, '\n') as int;
    crate::text::lemma_index_of_char(b, '\n');
    assert forall|i: int| 0 <= i < 11 implies b[i] != '\n' by {
        assert("diff --git "@[i] == b[i]);
    }
    assert(n >= 11);
    assert(lines[0].len() >= 11) by {
        assert("diff --git "@[10] == b[10]);
    }
    assert("diff --git "@ =~= lines[0].take(11)) by {
        assert("diff --git "@ =~= b.take(11));
    }
    assert("diff --git "@.is_prefix_of(lines[0]));
    crate::text::lines_of_joined_texts(a, b);
    lemma_reads_in_parts(new_reader(), text::lines_of(a), lines);
    lemma_lines_read_on(text::lines_of(a), lines);
}

/// The header of a hunk that starts at line `old_start` of the old file and line `new_start` of
/// the new one, with or without the lengths, and whatever follows.
pub open spec fn hunk_header(
    old_start: nat,
    old_len: Option<nat>,
    new_start: nat,
    new_len: Option<nat>,
    rest: Seq<char>,
) -> Seq<char> {
    "@@ -"@ + text::decimal(old_start) + length_text(old_len) + " +"@ + text::decimal(new_start)
        + length_text(new_len) + " @@"@ + rest
}

/// A length behind a start, where there is one.
pub open spec fn length_text(len: Option<nat>) -> Seq<char> {
    match len {
        Some(n) => ","@ + text::decimal(n),
        None => Seq::empty(),
    }
}

proof fn lemma_range_word(sign: char, start: usize, len: Option<nat>)
    requires
        sign == '-' || sign == '+',
    ensures
        ({
            let word = seq![sign] + text::decimal(start as nat) + length_text(len);
            &&& word.len() > 0
            &&& forall|i: int|
                0 <= i < word.len() ==> !text::is_white(#[trigger] word[i]) && word[i] != '@'
            &&& text::parse_number(up_to_comma(word.skip(1))) == Some(start as nat)
        }),
{
    reveal_strlit(",");
    let number = text::decimal(start as nat);
    let word = seq![sign] + number + length_text(len);
    crate::text::decimal_is_digit_by_digit(start as nat);
    if let Some(n) = len {
        crate::text::decimal_is_digit_by_digit(n);
        assert(length_text(len) =~= seq![','] + text::decimal(n));
    }
    let tail = word.skip(1);
    assert(tail =~= number + length_text(len));
    assert forall|i: int| 0 <= i < number.len() implies #[trigger] tail[i] != ',' by {
        assert(tail[i] == number[i]);
    }
    crate::text::lemma_index_of_char_is(tail, ',', number.len() as int);
    assert(up_to_comma(tail) =~= number);
    crate::text::parse_undoes_decimal(start);
    assert forall|i: int| 0 <= i < word.len() implies !text::is_white(#[trigger] word[i]) && word[i]
        != '@' by {
        if 1 <= i <= number.len() {
            assert(word[i] == number[i - 1]);
        } else if i > number.len() + 1 {
            assert(word[i] == length_text(len)[i - 1 - number.len()]);
            assert(word[i] == text::decimal(len->0)[i - 2 - number.len()]);
        }
    }
}

/// The header of a hunk says where the hunk starts: first in the old file, then in the new one.
pub proof fn hunk_headers_say_where_hunks_start(
    old_start: usize,
    old_len: Option<nat>,
    new_start: usize,
    new_len: Option<nat>,
    rest: Seq<char>,
)
    ensures
        hunk_start(hunk_header(old_start as nat, old_len, new_start as nat, new_len, rest)) == Some(
            (old_start, new_start),
        ),
{
    reveal_strlit("@@ -");
    reveal_strlit("@@ ");
    reveal_strlit(" +");
    reveal_strlit(" @@");
    let header = hunk_header(old_start as nat, old_len, new_start as nat, new_len, rest);
    let first = seq!['-'] + text::decimal(old_start as nat) + length_text(old_len);
    let second = seq!['+'] + text::decimal(new_start as nat) + length_text(new_len);
    lemma_range_word('-', old_start, old_len);
    lemma_range_word('+', new_start, new_len);
    let gap = seq![' '];
    let range = first + gap + second;
    assert(header =~= seq!['@', '@', ' '] + range + seq![' ', '@', '@'] + rest);
    assert("@@ "@ =~= seq!['@', '@', ' ']);
    assert(" @@"@ =~= seq![' ', '@', '@']);
    assert("@@ "@ =~= header.take(3));
    assert("@@ "@.is_prefix_of(header));
    let tail = header.skip(3);
    assert(tail =~= range + " @@"@ + rest);
    let n = range.len() as int;
    assert(tail.subrange(n, n + 3) =~= " @@"@);
    assert forall|k: int| 0 <= k < n implies #[trigger] tail.subrange(k, k + 3) != " @@"@ by {
        let part = tail.subrange(k, k + 3);
        if part == " @@"@ {
            assert(part[0] == ' ' && part[1] == '@');
            assert(tail[k] == ' ' && tail[k + 1] == '@');
            if k < first.len() {
                assert(tail[k] == first[k]);
            } else if k == first.len() {
                assert(tail[k + 1] == second[0]);
            } else {
                assert(tail[k] == second[k - first.len() - 1]);
            }
        }
    }
    crate::text::lemma_first_occurrence_is(tail, " @@"@, 0, n);
    assert(tail.take(n) =~= range);
    assert(text::before_first(tail, " @@"@) == range);
    let none = Seq::<char>::empty();
    crate::text::lemma_first_word(none, first, gap + second);
    assert(none + first + (gap + second) =~= range);
    crate::text::lemma_first_word(gap, second, none);
    assert(gap + second + none =~= gap + second);
    let words = text::words_of(range);
    assert(words[0] == first && words[1] == second);
    assert(first[0] == '-' && second[0] == '+');
}

/// How many of the lines stand in the old file.
pub open spec fn lines_in_old(lines: Seq<DiffLineView>) -> nat
    decreases lines.len(),
{
    if lines.len() == 0 {
        0
    } else {
        lines_in_old(lines.drop_last()) + if lines.last().kind == DiffLineKind::Context
            || lines.last().kind == DiffLineKind::Delete {
            1nat
        } else {
            0
        }
    }
}

/// How many of the lines stand in the new file.
pub open spec fn lines_in_new(lines: Seq<DiffLineView>) -> nat
    decreases lines.len(),
{
    if lines.len() == 0 {
        0
    } else {
        lines_in_new(lines.drop_last()) + if lines.last().kind == DiffLineKind::Context
            || lines.last().kind == DiffLineKind::Add {
            1nat
        } else {
            0
        }
    }
}

/// Whether line `h` is the last header of a hunk among the first `n` lines.
pub open spec fn last_hunk(lines: Seq<DiffLineView>, h: int, n: int) -> bool {
    &&& 0 <= h < n <= lines.len()
    &&& opens_hunk(lines[h])
    &&& forall|k: int| h < k < n ==> (#[trigger] lines[k]).kind != DiffLineKind::HunkHeader
}

proof fn lemma_counts_are_small(lines: Seq<DiffLineView>)
    ensures
        lines_in_old(lines) <= lines.len(),
        lines_in_new(lines) <= lines.len(),
    decreases lines.len(),
{
    if lines.len() > 0 {
        lemma_counts_are_small(lines.drop_last());
    }
}

proof fn lemma_reader_counts(texts: Seq<Seq<char>>, h: int)
    requires
        last_hunk(
            new_reader().read(texts).diff.lines,
            h,
            new_reader().read(texts).diff.lines.len() as int,
        ),
    ensures
        ({
            let r = new_reader().read(texts);
            let behind = r.diff.lines.skip(h + 1);
            let (old_start, new_start) = hunk_start(r.diff.lines[h].content)->0;
            &&& old_start + behind.len() <= usize::MAX ==> r.old_line == old_start + lines_in_old(
                behind,
            )
            &&& new_start + behind.len() <= usize::MAX ==> r.new_line == new_start + lines_in_new(
                behind,
            )
        }),
    decreases texts.len(),
{
    if texts.len() > 0 {
        let p = new_reader().read(texts.drop_last());
        let r = new_reader().read(texts);
        let text = texts.last();
        let lines = r.diff.lines;
        let behind = lines.skip(h + 1);
        if lines.len() == p.diff.lines.len() {
            assert(lines == p.diff.lines);
            lemma_reader_counts(texts.drop_last(), h);
        } else {
            assert(lines.drop_last() =~= p.diff.lines);
            if h == lines.len() - 1 {
                assert(behind =~= Seq::<DiffLineView>::empty());
                assert(lines[h].kind == DiffLineKind::HunkHeader);
            } else {
                assert(lines[lines.len() - 1].kind != DiffLineKind::HunkHeader);
                assert(last_hunk(p.diff.lines, h, p.diff.lines.len() as int)) by {
                    assert(p.diff.lines[h] == lines[h]);
                    assert forall|k: int| h < k < p.diff.lines.len() implies (
                    #[trigger] p.diff.lines[k]).kind != DiffLineKind::HunkHeader by {
                        assert(p.diff.lines[k] == lines[k]);
                    }
                }
                lemma_reader_counts(texts.drop_last(), h);
                assert(behind.drop_last() =~= p.diff.lines.skip(h + 1));
                assert(behind.last() == lines.last());
                lemma_counts_are_small(behind.drop_last());
            }
        }
    }
}

proof fn lemma_numbers_count(texts: Seq<Seq<char>>, h: int, i: int)
    requires
        last_hunk(new_reader().read(texts).diff.lines, h, i),
        i < new_reader().read(texts).diff.lines.len(),
        new_reader().read(texts).diff.lines[i].kind != DiffLineKind::HunkHeader,
    ensures
        ({
            let lines = new_reader().read(texts).diff.lines;
            let between = lines.subrange(h + 1, i);
            let (old_start, new_start) = hunk_start(lines[h].content)->0;
            &&& old_start + i <= usize::MAX ==> (lines[i].old_lineno matches Some(n) ==> n
                == old_start + lines_in_old(between))
            &&& new_start + i <= usize::MAX ==> (lines[i].new_lineno matches Some(n) ==> n
                == new_start + lines_in_new(between))
        }),
    decreases texts.len(),
{
    let p = new_reader().read(texts.drop_last());
    let lines = new_reader().read(texts).diff.lines;
    if i < p.diff.lines.len() {
        assert forall|k: int| 0 <= k <= i implies #[trigger] lines[k] == p.diff.lines[k] by {}
        assert forall|k: int| h < k < i implies (#[trigger] p.diff.lines[k]).kind
            != DiffLineKind::HunkHeader by {
            assert(p.diff.lines[k] == lines[k]);
        }
        lemma_numbers_count(texts.drop_last(), h, i);
        assert(lines.subrange(h + 1, i) =~= p.diff.lines.subrange(h + 1, i));
    } else {
        assert(i == p.diff.lines.len());
        assert forall|k: int| h < k < p.diff.lines.len() implies (#[trigger] p.diff.lines[k]).kind
            != DiffLineKind::HunkHeader by {
            assert(p.diff.lines[k] == lines[k]);
        }
        assert(p.diff.lines[h] == lines[h]);
        lemma_reader_counts(texts.drop_last(), h);
        assert(lines.subrange(h + 1, i) =~= p.diff.lines.skip(h + 1));
    }
}

/// The lines of a hunk are numbered from where its header says that it starts: a line has the
/// number that follows those of the lines before it in the hunk, in the old file and in the new.
pub proof fn lines_count_on_from_their_header(
    raw: Seq<char>,
    h: int,
    i: int,
    old_start: usize,
    old_len: Option<nat>,
    new_start: usize,
    new_len: Option<nat>,
    rest: Seq<char>,
)
    requires
        0 <= h < i < diff_of(raw).lines.len(),
        diff_of(raw).lines[h].kind == DiffLineKind::HunkHeader,
        diff_of(raw).lines[h].content == hunk_header(
            old_start as nat,
            old_len,
            new_start as nat,
            new_len,
            rest,
        ),
        forall|k: int|
            h < k <= i ==> (#[trigger] diff_of(raw).lines[k]).kind != DiffLineKind::HunkHeader,
        old_start + i <= usize::MAX,
        new_start + i <= usize::MAX,
    ensures
        ({
            let line = diff_of(raw).lines[i];
            let between = diff_of(raw).lines.subrange(h + 1, i);
            &&& line.kind == DiffLineKind::Context || line.kind == DiffLineKind::Delete
                ==> line.old_lineno is Some && line.old_lineno->0 == old_start + lines_in_old(
                between,
            )
            &&& line.kind == DiffLineKind::Context || line.kind == DiffLineKind::Add
                ==> line.new_lineno is Some && line.new_lineno->0 == new_start + lines_in_new(
                between,
            )
        }),
{
    hunk_headers_say_where_hunks_start(old_start, old_len, new_start, new_len, rest);
    parsed_line_numbers_fit_kinds(raw);
    let lines = diff_of(raw).lines;
    assert(opens_hunk(lines[h]));
    assert(last_hunk(lines, h, i));
    assert(lines[i].kind != DiffLineKind::HunkHeader);
    lemma_numbers_count(text::lines_of(raw), h, i);
}

proof fn lemma_last_line(head: Seq<char>, line: Seq<char>)
    requires
        head.len() == 0 || head.last() == '\n',
        line.len() > 0,
        forall|i: int| 0 <= i < line.len() ==> #[trigger] line[i] != '\n',
    ensures
        new_reader().read(text::lines_of(head + line)) == new_reader().read(
            text::lines_of(head),
        ).step(line),
{
    crate::text::lines_of_joined_texts(head, line);
    crate::text::lemma_index_of_char_is(line, '\n', line.len() as int);
    let before = text::lines_of(head);
    let all = text::lines_of(head + line);
    assert(all =~= before.push(line));
    assert(all.drop_last() =~= before);
}

/// Whether a diff is another with one line more.
pub open spec fn one_line_more(before: ParsedDiffView, after: ParsedDiffView) -> bool {
    &&& after.lines.len() == before.lines.len() + 1
    &&& after.lines.drop_last() == before.lines
    &&& after.file_names == before.file_names
    &&& after.file_start_indices == before.file_start_indices
}

/// A line that is marked with a plus is an added one, a minus marks a deleted one and a space one
/// that both files have; the line's text is what follows the mark. The lines that name the two
/// files look the same at the start, and are neither.
pub proof fn marks_tell_what_happened(head: Seq<char>, text: Seq<char>)
    requires
        head.len() == 0 || head.last() == '\n',
        forall|i: int| 0 <= i < text.len() ==> #[trigger] text[i] != '\n',
    ensures
        !"++ "@.is_prefix_of(text) ==> {
            let d = diff_of(head + (seq!['+'] + text));
            &&& one_line_more(diff_of(head), d)
            &&& d.lines.last().kind == DiffLineKind::Add && d.lines.last().content == text
        },
        !"-- "@.is_prefix_of(text) ==> {
            let d = diff_of(head + (seq!['-'] + text));
            &&& one_line_more(diff_of(head), d)
            &&& d.lines.last().kind == DiffLineKind::Delete && d.lines.last().content == text
        },
        ({
            let d = diff_of(head + (seq![' '] + text));
            &&& one_line_more(diff_of(head), d)
            &&& d.lines.last().kind == DiffLineKind::Context && d.lines.last().content == text
        }),
        "++ "@.is_prefix_of(text) ==> {
            let d = diff_of(head + (seq!['+'] + text));
            &&& one_line_more(diff_of(head), d)
            &&& d.lines.last().kind == DiffLineKind::FileMetadata
            &&& d.lines.last().content == seq!['+'] + text
        },
        "-- "@.is_prefix_of(text) ==> {
            let d = diff_of(head + (seq!['-'] + text));
            &&& one_line_more(diff_of(head), d)
            &&& d.lines.last().kind == DiffLineKind::FileMetadata
            &&& d.lines.last().content == seq!['-'] + text
        },
{
    reveal_strlit("diff --git ");
    reveal_strlit("--- ");
    reveal_strlit("+++ ");
    reveal_strlit("-- ");
    reveal_strlit("++ ");
    reveal_strlit("index ");
    reveal_strlit("@@ ");
    let plus = seq!['+'] + text;
    let minus = seq!['-'] + text;
    let space = seq![' '] + text;
    lemma_last_line(head, plus);
    lemma_last_line(head, minus);
    lemma_last_line(head, space);
    assert(plus.skip(1) =~= text && minus.skip(1) =~= text && space.skip(1) =~= text);
    assert("+++ "@ =~= seq!['+'] + "++ "@);
    assert("--- "@ =~= seq!['-'] + "-- "@);
    lemma_prefix_behind('+', "++ "@, "+++ "@, text);
    lemma_prefix_behind('-', "-- "@, "--- "@, text);
    lemma_other_start(plus, "diff --git "@);
    lemma_other_start(plus, "--- "@);
    lemma_other_start(plus, "index "@);
    lemma_other_start(plus, "@@ "@);
    lemma_other_start(minus, "diff --git "@);
    lemma_other_start(minus, "+++ "@);
    lemma_other_start(minus, "index "@);
    lemma_other_start(minus, "@@ "@);
    lemma_other_start(space, "diff --git "@);
    lemma_other_start(space, "--- "@);
    lemma_other_start(space, "+++ "@);
    lemma_other_start(space, "index "@);
    lemma_other_start(space, "@@ "@);
    let before = diff_of(head).lines;
    assert(diff_of(head + plus).lines.drop_last() =~= before);
    assert(diff_of(head + minus).lines.drop_last() =~= before);
    assert(diff_of(head + space).lines.drop_last() =~= before);
}

proof fn lemma_other_start(text: Seq<char>, prefix: Seq<char>)
    requires
        text.len() > 0,
        prefix.len() > 0,
        text[0] != prefix[0],
    ensures
        !prefix.is_prefix_of(text),
{
    if prefix.is_prefix_of(text) {
        assert(text.take(prefix.len() as int)[0] == prefix[0]);
    }
}

proof fn lemma_prefix_behind(c: char, prefix: Seq<char>, whole: Seq<char>, text: Seq<char>)
    requires
        whole == seq![c] + prefix,
    ensures
        whole.is_prefix_of(seq![c] + text) == prefix.is_prefix_of(text),
{
    let t = seq![c] + text;
    if whole.is_prefix_of(t) {
        assert(t.take(whole.len() as int).skip(1) =~= prefix);
        assert(text.take(prefix.len() as int) =~= t.take(whole.len() as int).skip(1));
    }
    if prefix.is_prefix_of(text) {
        assert(t.take(whole.len() as int) =~= seq![c] + text.take(prefix.len() as int));
    }
}

/// A file begins with the line that names it: its name is the path without the prefix, its first
/// line is that line, and the lines that follow belong to it until the next file begins.
pub proof fn files_begin_with_their_names(head: Seq<char>, path: Seq<char>)
    requires
        head.len() == 0 || head.last() == '\n',
        forall|i: int| 0 <= i < path.len() ==> #[trigger] path[i] != '\n',
        forall|k: int|
            0 <= k < path.len() ==> #[trigger] (path + " b/"@).subrange(k, k + 3) != " b/"@,
    ensures
        ({
            let line = "diff --git a/"@ + path + " b/"@ + path;
            let d = diff_of(head + line);
            &&& d.file_names == diff_of(head).file_names.push(path)
            &&& d.lines.drop_last() == diff_of(head).lines
            &&& d.lines.last().kind == DiffLineKind::FileHeader
            &&& d.lines.last().content == line
            &&& d.file_start_indices == diff_of(head).file_start_indices.push(
                diff_of(head).lines.len() as int,
            )
            &&& d.lines.last().file_idx == d.file_names.len() - 1
        }),
{
    reveal_strlit("diff --git ");
    reveal_strlit("diff --git a/");
    reveal_strlit(" b/");
    let line = "diff --git a/"@ + path + " b/"@ + path;
    assert forall|i: int| 0 <= i < line.len() implies #[trigger] line[i] != '\n' by {
        if 13 <= i < 13 + path.len() {
            assert(line[i] == path[i - 13]);
        } else if i >= 16 + path.len() {
            assert(line[i] == path[i - 16 - path.len()]);
        }
    }
    lemma_last_line(head, line);
    assert(line.take(11) =~= "diff --git "@);
    assert(line.take(13) =~= "diff --git a/"@);
    let tail = line.skip(13);
    let n = path.len() as int;
    assert(tail =~= path + " b/"@ + path);
    assert(tail.subrange(n, n + 3) =~= " b/"@);
    assert forall|k: int| 0 <= k < n implies #[trigger] tail.subrange(k, k + 3) != " b/"@ by {
        assert(tail.subrange(k, k + 3) =~= (path + " b/"@).subrange(k, k + 3));
    }
    crate::text::lemma_first_occurrence_is(tail, " b/"@, 0, n);
    assert(tail.take(n) =~= path);
    assert(header_name(line) == path);
    lemma_reader_ok(text::lines_of(head));
    assert(diff_of(head + line).lines.drop_last() =~= diff_of(head).lines);
}

/// A line that opens a hunk is kept whole, as the header that it is, and so is a line that names
/// the versions of a file or the end of a file without a line end.
pub proof fn headers_are_kept_whole(head: Seq<char>, rest: Seq<char>)
    requires
        head.len() == 0 || head.last() == '\n',
        forall|i: int| 0 <= i < rest.len() ==> #[trigger] rest[i] != '\n',
    ensures
        ({
            let line = "@@ "@ + rest;
            let d = diff_of(head + line);
            &&& one_line_more(diff_of(head), d)
            &&& d.lines.last().kind == DiffLineKind::HunkHeader && d.lines.last().content == line
        }),
        ({
            let line = "index "@ + rest;
            let d = diff_of(head + line);
            &&& one_line_more(diff_of(head), d)
            &&& d.lines.last().kind == DiffLineKind::FileMetadata && d.lines.last().content == line
        }),
{
    reveal_strlit("diff --git ");
    reveal_strlit("--- ");
    reveal_strlit("+++ ");
    reveal_strlit("index ");
    reveal_strlit("@@ ");
    let hunk = "@@ "@ + rest;
    let index = "index "@ + rest;
    assert forall|i: int| 0 <= i < hunk.len() implies #[trigger] hunk[i] != '\n' by {
        if i >= 3 {
            assert(hunk[i] == rest[i - 3]);
        }
    }
    assert forall|i: int| 0 <= i < index.len() implies #[trigger] index[i] != '\n' by {
        if i >= 6 {
            assert(index[i] == rest[i - 6]);
        }
    }
    lemma_last_line(head, hunk);
    lemma_last_line(head, index);
    assert(hunk.take(3) =~= "@@ "@);
    assert(index.take(6) =~= "index "@);
    lemma_other_start(hunk, "diff --git "@);
    lemma_other_start(hunk, "--- "@);
    lemma_other_start(hunk, "+++ "@);
    lemma_other_start(hunk, "index "@);
    lemma_other_start(index, "diff --git "@);
    let before = diff_of(head).lines;
    assert(diff_of(head + hunk).lines.drop_last() =~= before);
    assert(diff_of(head + index).lines.drop_last() =~= before);
}

/// What a refresh of the diff becomes: git's output parsed, or what went wrong.
pub fn diff_event(result: Result<String, String>) -> (event: DiffEvent)
    ensures
        match (result, event) {
            (Ok(raw), DiffEvent::Updated(diff)) => diff@ == diff_of(raw@),
            (Err(e), DiffEvent::Error(message)) => message == e,
            _ => false,
        },
{
    match result {
        Ok(raw) => DiffEvent::Updated(parse_unified_diff(raw.as_str())),
        Err(e) => DiffEvent::Error(e),
    }
}

/// How a run of `git diff` ended.
pub enum GitRun {
    /// It could not be started, or not be waited for.
    Failed(String),
    /// It ended with an error, and said so.
    Refused(String),
    /// It ended well, and its output is text.
    Printed(String),
    /// It ended well, and its output is not text.
    NotText(String),
}

/// What a run of git brings: its output, or what went wrong.
pub fn git_output(run: GitRun) -> (result: Result<String, String>)
    ensures
        match run {
            GitRun::Printed(text) => result == Ok::<String, String>(text),
            GitRun::Failed(e) => result matches Err(m) && m@ == "failed to run git diff: "@ + e@,
            GitRun::Refused(e) => result matches Err(m) && m@ == "git diff failed: "@ + e@,
            GitRun::NotText(e) => result matches Err(m) && m@ == "invalid utf8 in git output: "@
                + e@,
        },
{
    match run {
        GitRun::Printed(text) => Ok(text),
        GitRun::Failed(e) => Err(joined("failed to run git diff: ", e.as_str())),
        GitRun::Refused(e) => Err(joined("git diff failed: ", e.as_str())),
        GitRun::NotText(e) => Err(joined("invalid utf8 in git output: ", e.as_str())),
    }
}

} // verus!
