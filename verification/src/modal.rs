//! What the modal dialogs have in common: a line to type in, a list to choose from, directories
//! to walk through, and the frame that all of it is shown in.

use vstd::prelude::*;

use crate::branch_picker;
use crate::editing;
use crate::lists;
use crate::ranking;
use crate::text;
use crate::editing::{backspace, char_index, insert_char, insert_text, move_left, move_right, paste};
use crate::lists::{select_next, select_prev};
use crate::protocol::{BranchInfo, RepoInfo};
use crate::ranking::{filter_by_either, filter_names, Match};
use crate::term_complete::DirEntry;
use crate::text::{chars_of, copy_of, string_of, text_eq, text_lt};

verus! {

// ── A line and a selection ─────────────────────────────────────────

/// A line being typed.
pub struct Field {
    pub input: String,
    /// A byte offset into `input`.
    pub cursor_pos: usize,
}

impl View for Field {
    type V = editing::Edit;

    open spec fn view(&self) -> editing::Edit {
        editing::edit(self.input@, self.cursor_pos)
    }
}

/// An empty line.
pub open spec fn no_text() -> editing::Edit {
    editing::Edit { text: Seq::empty(), at: 0 }
}

/// A line with its cursor at the end.
pub open spec fn text_at_end(text: Seq<char>) -> editing::Edit {
    editing::Edit { text, at: text.len() as int }
}

impl Field {
    /// The cursor stands between two characters.
    pub open spec fn wf(self) -> bool {
        editing::cursor_ok(self.input@, self.cursor_pos as int)
    }

    pub fn new() -> (f: Self)
        ensures
            f.wf(),
            f@ == no_text(),
    {
        let f = Field { input: String::new(), cursor_pos: 0 };
        proof {
            assert(f.input@.take(0) =~= Seq::<char>::empty());
            editing::lemma_cursor_is(f.input@, 0, 0);
            assert(f.input@ =~= Seq::<char>::empty());
        }
        f
    }

    /// A line with a text in it and the cursor at its end.
    pub fn with_text(text: &str) -> (f: Self)
        ensures
            f.wf(),
            f@ == text_at_end(text@),
    {
        let mut f = Field::new();
        insert_text(&mut f.input, &mut f.cursor_pos, text);
        assert(f@ =~= text_at_end(text@));
        f
    }

    pub fn type_char(&mut self, c: char)
        requires
            old(self).wf(),
        ensures
            final(self).wf(),
            final(self)@ == old(self)@.inserted(seq![c]),
    {
        insert_char(&mut self.input, &mut self.cursor_pos, c);
    }

    pub fn type_text(&mut self, text: &str)
        requires
            old(self).wf(),
        ensures
            final(self).wf(),
            final(self)@ == old(self)@.inserted(text@),
    {
        insert_text(&mut self.input, &mut self.cursor_pos, text);
    }

    pub fn paste_line(&mut self, text: &str)
        requires
            old(self).wf(),
        ensures
            final(self).wf(),
            final(self)@ == old(self)@.inserted(editing::one_line(text@)),
    {
        paste(&mut self.input, &mut self.cursor_pos, text);
    }

    /// Removes the character before the cursor; returns whether there was one.
    pub fn erase(&mut self) -> (erased: bool)
        requires
            old(self).wf(),
        ensures
            final(self).wf(),
            final(self)@ == old(self)@.erased(),
            erased == (old(self)@.at > 0),
    {
        backspace(&mut self.input, &mut self.cursor_pos)
    }

    pub fn left(&mut self)
        requires
            old(self).wf(),
        ensures
            final(self).wf(),
            final(self)@ == old(self)@.left(),
    {
        move_left(&self.input, &mut self.cursor_pos);
    }

    pub fn right(&mut self)
        requires
            old(self).wf(),
        ensures
            final(self).wf(),
            final(self)@ == old(self)@.right(),
    {
        move_right(&self.input, &mut self.cursor_pos);
    }

    /// How many characters stand before the cursor.
    pub fn cursor_char(&self) -> (at: usize)
        requires
            self.wf(),
        ensures
            at == self@.at,
            at <= self@.text.len(),
    {
        char_index(self.input.as_str(), self.cursor_pos)
    }
}

/// A line being typed, and which entry of the list below it is selected.
pub struct Chooser {
    pub field: Field,
    pub selected_idx: usize,
}

#[verifier::ext_equal]
pub ghost struct ChooserView {
    pub edit: editing::Edit,
    pub selected: int,
}

impl View for Chooser {
    type V = ChooserView;

    open spec fn view(&self) -> ChooserView {
        ChooserView { edit: self.field@, selected: self.selected_idx as int }
    }
}

/// Nothing typed, and the first entry selected.
pub open spec fn fresh() -> ChooserView {
    ChooserView { edit: no_text(), selected: 0 }
}

impl ChooserView {
    /// Typing selects the first entry again.
    pub open spec fn typed(self, text: Seq<char>) -> ChooserView {
        ChooserView { edit: self.edit.inserted(text), selected: 0 }
    }

    /// So does removing a character, where there is one.
    pub open spec fn erased(self) -> ChooserView {
        if self.edit.at > 0 {
            ChooserView { edit: self.edit.erased(), selected: 0 }
        } else {
            self
        }
    }

    pub open spec fn left(self) -> ChooserView {
        ChooserView { edit: self.edit.left(), ..self }
    }

    pub open spec fn right(self) -> ChooserView {
        ChooserView { edit: self.edit.right(), ..self }
    }

    pub open spec fn up(self) -> ChooserView {
        ChooserView { selected: lists::prev_in(self.selected), ..self }
    }

    /// One entry down in a list of `count`.
    pub open spec fn down(self, count: int) -> ChooserView {
        ChooserView { selected: lists::next_in(self.selected, count), ..self }
    }

    /// Which entry of the list is chosen, where the list is `matches` of it.
    pub open spec fn choice(self, matches: Seq<Match>) -> Option<int> {
        if self.selected < matches.len() {
            Some(matches[self.selected].0 as int)
        } else {
            None
        }
    }
}

impl Chooser {
    pub open spec fn wf(self) -> bool {
        self.field.wf()
    }

    pub fn new() -> (c: Self)
        ensures
            c.wf(),
            c@ == fresh(),
    {
        Chooser { field: Field::new(), selected_idx: 0 }
    }

    pub fn reset(&mut self)
        ensures
            final(self).wf(),
            final(self)@ == fresh(),
    {
        self.field = Field::new();
        self.selected_idx = 0;
    }

    pub fn type_char(&mut self, c: char)
        requires
            old(self).wf(),
        ensures
            final(self).wf(),
            final(self)@ == old(self)@.typed(seq![c]),
    {
        self.field.type_char(c);
        self.selected_idx = 0;
    }

    pub fn paste_line(&mut self, text: &str)
        requires
            old(self).wf(),
        ensures
            final(self).wf(),
            final(self)@ == old(self)@.typed(editing::one_line(text@)),
    {
        self.field.paste_line(text);
        self.selected_idx = 0;
    }

    /// Removes the character before the cursor; returns whether there was one.
    pub fn erase(&mut self) -> (erased: bool)
        requires
            old(self).wf(),
        ensures
            final(self).wf(),
            final(self)@ == old(self)@.erased(),
            erased == (old(self)@.edit.at > 0),
    {
        let ghost before = self.field@;
        if self.field.erase() {
            self.selected_idx = 0;
            true
        } else {
            proof {
                assert(before.at <= 0);
                assert(before.erased() == before);
            }
            false
        }
    }

    pub fn left(&mut self)
        requires
            old(self).wf(),
        ensures
            final(self).wf(),
            final(self)@ == old(self)@.left(),
    {
        self.field.left();
    }

    pub fn right(&mut self)
        requires
            old(self).wf(),
        ensures
            final(self).wf(),
            final(self)@ == old(self)@.right(),
    {
        self.field.right();
    }

    pub fn up(&mut self)
        requires
            old(self).wf(),
        ensures
            final(self).wf(),
            final(self)@ == old(self)@.up(),
    {
        self.selected_idx = select_prev(self.selected_idx);
    }

    pub fn down(&mut self, count: usize)
        requires
            old(self).wf(),
        ensures
            final(self).wf(),
            final(self)@ == old(self)@.down(count as int),
    {
        self.selected_idx = select_next(self.selected_idx, count);
    }

    /// The place in the list of the entry that is chosen among the matching ones.
    pub fn choice(&self, matches: &Vec<Match>) -> (idx: Option<usize>)
        ensures
            match idx {
                Some(i) => self@.choice(matches@) == Some(i as int),
                None => self@.choice(matches@) is None,
            },
    {
        if self.selected_idx < matches.len() {
            Some(matches[self.selected_idx].0)
        } else {
            None
        }
    }
}

// ── Walking through directories ────────────────────────────────────

/// A text without the slashes at its end.
pub open spec fn without_slashes(path: Seq<char>) -> Seq<char>
    decreases path.len(),
{
    if path.len() > 0 && path.last() == '/' {
        without_slashes(path.drop_last())
    } else {
        path
    }
}

/// A path with a slash at its end.
pub open spec fn as_directory(path: Seq<char>) -> Seq<char> {
    if path.len() > 0 && path.last() == '/' {
        path
    } else {
        path + "/"@
    }
}

/// A path without slashes at its end; the root stays a slash.
pub open spec fn as_plain_path(path: Seq<char>) -> Seq<char> {
    if without_slashes(path).len() == 0 {
        "/"@
    } else {
        without_slashes(path)
    }
}

/// Everything before the last slash, where there is one.
pub open spec fn before_last_slash(s: Seq<char>) -> Option<Seq<char>>
    decreases s.len(),
{
    if s.len() == 0 {
        None
    } else if s.last() == '/' {
        Some(s.drop_last())
    } else {
        before_last_slash(s.drop_last())
    }
}

/// The directory above another one.
pub open spec fn parent_of(path: Seq<char>) -> Option<Seq<char>> {
    if path == "/"@ {
        None
    } else {
        match before_last_slash(without_slashes(path)) {
            Some(head) => Some(head + "/"@),
            None => None,
        }
    }
}

/// A directory below another one.
pub open spec fn child_of(path: Seq<char>, name: Seq<char>) -> Seq<char> {
    path + name + "/"@
}

/// A text without the slashes at its end.
pub fn trim_slashes(path: &str) -> (s: String)
    ensures
        s@ == without_slashes(path@),
{
    let chars = chars_of(path);
    let mut n: usize = chars.len();
    assert(path@.take(n as int) =~= path@);
    while n > 0 && chars[n - 1] == '/'
        invariant
            n <= chars@.len(),
            chars@ == path@,
            without_slashes(path@) == without_slashes(path@.take(n as int)),
        decreases n,
    {
        assert(path@.take(n as int).drop_last() =~= path@.take(n - 1));
        n -= 1;
    }
    let s = string_of(chars.as_slice(), 0, n);
    assert(s@ =~= path@.take(n as int));
    s
}

pub fn plain_path(path: &str) -> (s: String)
    ensures
        s@ == as_plain_path(path@),
{
    let s = trim_slashes(path);
    if s.as_str().is_empty() {
        copy_of("/")
    } else {
        s
    }
}

pub fn directory_path(path: &str) -> (s: String)
    ensures
        s@ == as_directory(path@),
{
    let chars = chars_of(path);
    let mut s = copy_of(path);
    if chars.len() == 0 || chars[chars.len() - 1] != '/' {
        s.push_str("/");
    }
    s
}

fn parent_path(path: &str) -> (parent: Option<String>)
    ensures
        branch_picker::text_in(parent) == parent_of(path@),
{
    if text_eq(path, "/") {
        return None;
    }
    let trimmed = trim_slashes(path);
    let chars = chars_of(trimmed.as_str());
    let mut n: usize = chars.len();
    assert(trimmed@.take(n as int) =~= trimmed@);
    while n > 0
        invariant
            n <= chars@.len(),
            chars@ == trimmed@,
            trimmed@ == without_slashes(path@),
            path@ != "/"@,
            before_last_slash(trimmed@) == before_last_slash(trimmed@.take(n as int)),
        decreases n,
    {
        assert(trimmed@.take(n as int).drop_last() =~= trimmed@.take(n - 1));
        if chars[n - 1] == '/' {
            let mut head = string_of(chars.as_slice(), 0, n - 1);
            assert(head@ =~= trimmed@.take(n - 1));
            head.push_str("/");
            return Some(head);
        }
        n -= 1;
    }
    None
}

/// An entry of a directory.
pub ghost struct EntryView {
    pub name: Seq<char>,
    pub is_dir: bool,
}

impl View for DirEntry {
    type V = EntryView;

    open spec fn view(&self) -> EntryView {
        EntryView { name: self.name@, is_dir: self.is_dir }
    }
}

pub open spec fn entries_view(entries: Seq<DirEntry>) -> Seq<EntryView> {
    entries.map_values(|e: DirEntry| e@)
}

/// Whether a name ends in another text.
pub open spec fn ends_in(name: Seq<char>, end: Seq<char>) -> bool {
    name.len() >= end.len() && name.skip(name.len() - end.len()) == end
}

/// Which entries are offered: no hidden ones, and of files only those with the right ending.
pub open spec fn offered(e: EntryView, files: bool) -> bool {
    &&& !(e.name.len() > 0 && e.name[0] == '.')
    &&& e.is_dir || (files && ends_in(e.name, ".json"@))
}

/// Directories come before files, and within each kind names go in order.
pub open spec fn entry_lt(a: EntryView, b: EntryView) -> bool {
    if a.is_dir != b.is_dir {
        a.is_dir
    } else {
        text::lex_lt(a.name, b.name)
    }
}

/// Puts an entry into a sorted list, behind everything that is not greater.
pub open spec fn entry_placed(entries: Seq<EntryView>, e: EntryView) -> Seq<EntryView>
    decreases entries.len(),
{
    if entries.len() == 0 || !entry_lt(e, entries.last()) {
        entries.push(e)
    } else {
        entry_placed(entries.drop_last(), e).push(entries.last())
    }
}

/// The offered entries of a directory, in order.
pub open spec fn listed(listing: Seq<EntryView>, files: bool) -> Seq<EntryView>
    decreases listing.len(),
{
    if listing.len() == 0 {
        listing
    } else {
        let rest = listed(listing.drop_last(), files);
        if offered(listing.last(), files) {
            entry_placed(rest, listing.last())
        } else {
            rest
        }
    }
}

pub fn name_ends_in(name: &str, end: &str) -> (yes: bool)
    ensures
        yes == ends_in(name@, end@),
{
    let a = chars_of(name);
    let b = chars_of(end);
    if a.len() < b.len() {
        return false;
    }
    let tail = string_of(a.as_slice(), a.len() - b.len(), a.len());
    assert(tail@ =~= name@.skip(name@.len() - end@.len()));
    text_eq(tail.as_str(), end)
}

fn is_offered(e: &DirEntry, files: bool) -> (yes: bool)
    ensures
        yes == offered(e@, files),
{
    let chars = chars_of(e.name.as_str());
    let hidden = chars.len() > 0 && chars[0] == '.';
    !hidden && (e.is_dir || (files && name_ends_in(e.name.as_str(), ".json")))
}

fn entry_before(a: &DirEntry, b: &DirEntry) -> (less: bool)
    ensures
        less == entry_lt(a@, b@),
{
    if a.is_dir != b.is_dir {
        a.is_dir
    } else {
        text_lt(a.name.as_str(), b.name.as_str())
    }
}

fn place_entry(entries: &mut Vec<DirEntry>, e: DirEntry)
    ensures
        entries_view(final(entries)@) == entry_placed(entries_view(old(entries)@), e@),
{
    let ghost before = entries@;
    let ghost views = entries_view(before);
    let mut at: usize = entries.len();
    assert(views.take(at as int) =~= views);
    assert(views.skip(at as int) =~= Seq::<EntryView>::empty());
    while at > 0 && entry_before(&e, &entries[at - 1])
        invariant
            at <= before.len(),
            entries@ == before,
            views == entries_view(before),
            entry_placed(views, e@) =~= entry_placed(views.take(at as int), e@) + views.skip(
                at as int,
            ),
        decreases at,
    {
        assert(views.take(at as int).drop_last() =~= views.take(at - 1));
        assert(views.skip(at - 1) =~= seq![views[at - 1]] + views.skip(at as int));
        at -= 1;
    }
    assert(at > 0 ==> views.take(at as int).last() == before[at - 1]@);
    assert(entry_placed(views.take(at as int), e@) =~= views.take(at as int).push(e@));
    entries.insert(at, e);
    assert(entries_view(entries@) =~= entry_placed(views, e@));
}

/// The directory being looked at.
pub struct Browser {
    /// Always ends with a slash once a directory was opened.
    pub base_path: String,
    /// What is offered of it, in order.
    pub entries: Vec<DirEntry>,
    /// Whether its listing is yet to come.
    pub unread: bool,
}

#[verifier::ext_equal]
pub ghost struct BrowserView {
    pub base: Seq<char>,
    pub entries: Seq<EntryView>,
    pub unread: bool,
}

impl View for Browser {
    type V = BrowserView;

    open spec fn view(&self) -> BrowserView {
        BrowserView {
            base: self.base_path@,
            entries: entries_view(self.entries@),
            unread: self.unread,
        }
    }
}

/// A directory that is yet to be read.
pub open spec fn unread_directory(base: Seq<char>) -> BrowserView {
    BrowserView { base, entries: Seq::empty(), unread: true }
}

pub open spec fn entry_names(entries: Seq<EntryView>) -> Seq<Seq<char>> {
    entries.map_values(|e: EntryView| e.name)
}

impl BrowserView {
    /// What is left of the entries when `pattern` has been typed.
    pub open spec fn matches(self, pattern: Seq<char>) -> Seq<Match> {
        ranking::filtered(entry_names(self.entries), pattern)
    }

    pub open spec fn entered(self, idx: int) -> BrowserView {
        unread_directory(child_of(self.base, self.entries[idx].name))
    }

    pub open spec fn above(self) -> BrowserView {
        match parent_of(self.base) {
            Some(parent) => unread_directory(parent),
            None => self,
        }
    }

    pub open spec fn read(self, listing: Seq<EntryView>, files: bool) -> BrowserView {
        BrowserView { entries: listed(listing, files), unread: false, ..self }
    }
}

impl Browser {
    /// No directory yet.
    pub fn nowhere() -> (b: Self)
        ensures
            b@ == (BrowserView { base: ""@, entries: Seq::empty(), unread: false }),
    {
        let b = Browser { base_path: copy_of(""), entries: Vec::new(), unread: false };
        assert(b@.entries =~= Seq::<EntryView>::empty());
        b
    }

    /// The directory with this path, yet to be read.
    pub fn open(path: &str) -> (b: Self)
        ensures
            b@ == unread_directory(as_directory(path@)),
    {
        let b = Browser { base_path: directory_path(path), entries: Vec::new(), unread: true };
        assert(b@.entries =~= Seq::<EntryView>::empty());
        b
    }

    /// The directory whose listing is yet to come.
    pub fn directory_to_read(&self) -> (path: Option<&str>)
        ensures
            match path {
                Some(p) => self@.unread && p@ == self@.base,
                None => !self@.unread,
            },
    {
        if self.unread {
            Some(self.base_path.as_str())
        } else {
            None
        }
    }

    /// Takes in the listing of the directory; an unreadable directory has none.
    pub fn read(&mut self, listing: Vec<DirEntry>, files: bool)
        ensures
            final(self)@ == old(self)@.read(entries_view(listing@), files),
    {
        let ghost views = entries_view(listing@);
        let mut listing = listing;
        let mut entries: Vec<DirEntry> = Vec::new();
        // Taken from the back, the listing comes in reverse
        let mut turned: Vec<DirEntry> = Vec::new();
        let ghost n = listing@.len();
        while listing.len() > 0
            invariant
                listing@.len() + turned@.len() == n,
                views == entries_view(listing@) + entries_view(turned@).reverse(),
            decreases listing@.len(),
        {
            let ghost left = entries_view(listing@);
            let ghost taken = entries_view(turned@);
            if let Some(e) = listing.pop() {
                turned.push(e);
                assert(entries_view(turned@) =~= taken.push(e@));
                assert(entries_view(turned@).reverse() =~= seq![e@] + taken.reverse());
                assert(left =~= entries_view(listing@).push(e@));
                assert(entries_view(listing@) + entries_view(turned@).reverse() =~= left
                    + taken.reverse());
            }
        }
        let ghost mut done = Seq::<EntryView>::empty();
        assert(views =~= entries_view(turned@).reverse());
        assert(views =~= done + entries_view(turned@).reverse());
        assert(entries_view(entries@) =~= listed(done, files));
        while turned.len() > 0
            invariant
                views == done + entries_view(turned@).reverse(),
                entries_view(entries@) == listed(done, files),
            decreases turned@.len(),
        {
            let ghost left = entries_view(turned@);
            if let Some(e) = turned.pop() {
                proof {
                    assert(left =~= entries_view(turned@).push(e@));
                    assert(left.reverse() =~= seq![e@] + entries_view(turned@).reverse());
                    assert(done.push(e@).drop_last() =~= done);
                    assert(views =~= done.push(e@) + entries_view(turned@).reverse());
                    done = done.push(e@);
                }
                if is_offered(&e, files) {
                    place_entry(&mut entries, e);
                }
            }
        }
        assert(views =~= done);
        self.entries = entries;
        self.unread = false;
    }

    fn names(&self) -> (names: Vec<&str>)
        ensures
            names@.map_values(|s: &str| s@) == entry_names(self@.entries),
    {
        let mut names: Vec<&str> = Vec::new();
        let mut i: usize = 0;
        while i < self.entries.len()
            invariant
                i <= self.entries@.len(),
                names@.len() == i,
                forall|k: int| 0 <= k < i ==> (#[trigger] names@[k])@ == self.entries@[k].name@,
            decreases self.entries@.len() - i,
        {
            names.push(self.entries[i].name.as_str());
            i += 1;
        }
        assert(names@.map_values(|s: &str| s@) =~= entry_names(self@.entries));
        names
    }

    /// What is left of the entries when `pattern` has been typed.
    pub fn matches(&self, pattern: &str) -> (left: Vec<Match>)
        ensures
            left@ == self@.matches(pattern@),
            forall|k: int|
                0 <= k < left@.len() ==> (#[trigger] left@[k]).0 < self@.entries.len(),
    {
        let names = self.names();
        let n: usize = names.len();
        let left = filter_names(&names, pattern);
        assert(n == entry_names(self@.entries).len()) by {
            assert(names@.map_values(|s: &str| s@).len() == n);
        }
        proof {
            ranking::lemma_filtered_in_range(entry_names(self@.entries), pattern@);
        }
        left
    }

    /// Goes into a directory.
    pub fn enter(&mut self, idx: usize)
        requires
            idx < old(self)@.entries.len(),
        ensures
            final(self)@ == old(self)@.entered(idx as int),
    {
        let mut path = copy_of(self.base_path.as_str());
        path.push_str(self.entries[idx].name.as_str());
        path.push_str("/");
        self.base_path = path;
        self.entries = Vec::new();
        self.unread = true;
        assert(self@.entries =~= Seq::<EntryView>::empty());
    }

    /// Goes to the directory above; returns whether there is one.
    pub fn go_up(&mut self) -> (went: bool)
        ensures
            final(self)@ == old(self)@.above(),
            went == (parent_of(old(self)@.base) is Some),
    {
        if let Some(path) = parent_path(self.base_path.as_str()) {
            self.base_path = path;
            self.entries = Vec::new();
            self.unread = true;
            assert(self@.entries =~= Seq::<EntryView>::empty());
            true
        } else {
            false
        }
    }
}

/// Going into a directory and up again leads back.
pub proof fn going_up_undoes_going_in(base: Seq<char>, name: Seq<char>)
    requires
        base.len() > 0,
        base.last() == '/',
        name.len() > 0,
        !name.contains('/'),
    ensures
        parent_of(child_of(base, name)) == Some(base),
{
    reveal_strlit("/");
    let path = child_of(base, name);
    let plain = base + name;
    assert(path.last() == '/');
    assert(path.drop_last() =~= plain);
    assert(plain.last() == name.last());
    assert(name.contains(name.last()));
    assert(without_slashes(plain) == plain);
    assert(without_slashes(path) == without_slashes(path.drop_last()));
    lemma_before_last_slash(base, name);
    assert(base.drop_last() + "/"@ =~= base);
    assert(path.len() > 1);
}

proof fn lemma_before_last_slash(base: Seq<char>, name: Seq<char>)
    requires
        base.len() > 0,
        base.last() == '/',
        !name.contains('/'),
    ensures
        before_last_slash(base + name) == Some(base.drop_last()),
    decreases name.len(),
{
    if name.len() == 0 {
        assert(base + name =~= base);
    } else {
        let s = base + name;
        assert(s.last() == name.last());
        assert(name.contains(name.last()));
        assert(s.drop_last() =~= base + name.drop_last());
        assert forall|c: char| name.drop_last().contains(c) implies name.contains(c) by {
            let i = name.drop_last().index_of(c);
            assert(name[i] == c);
        }
        lemma_before_last_slash(base, name.drop_last());
    }
}

/// Whether entries stand in their order.
pub open spec fn entries_in_order(entries: Seq<EntryView>) -> bool {
    forall|i: int, j: int|
        0 <= i < j < entries.len() ==> !entry_lt(#[trigger] entries[j], #[trigger] entries[i])
}

proof fn lemma_entry_order(a: EntryView, b: EntryView, c: EntryView)
    ensures
        !entry_lt(b, a) && !entry_lt(c, b) ==> !entry_lt(c, a),
        entry_lt(a, b) ==> !entry_lt(b, a),
{
    text::lex_order_is_total(a.name, b.name, c.name);
    text::lex_order_is_total(b.name, a.name, c.name);
    text::lex_order_is_total(c.name, a.name, b.name);
    text::lex_order_is_total(c.name, b.name, a.name);
    text::lex_order_is_total(b.name, c.name, a.name);
    text::lex_order_is_total(a.name, c.name, b.name);
}

proof fn lemma_placed(entries: Seq<EntryView>, e: EntryView)
    requires
        entries_in_order(entries),
    ensures
        entries_in_order(entry_placed(entries, e)),
        entry_placed(entries, e).to_multiset() == entries.to_multiset().insert(e),
        forall|i: int|
            0 <= i < entry_placed(entries, e).len() ==> {
                let x = #[trigger] entry_placed(entries, e)[i];
                x == e || entries.contains(x)
            },
    decreases entries.len(),
{
    broadcast use vstd::seq_lib::group_to_multiset_ensures;

    let placed = entry_placed(entries, e);
    if entries.len() == 0 || !entry_lt(e, entries.last()) {
        assert forall|i: int, j: int| 0 <= i < j < placed.len() implies !entry_lt(
            #[trigger] placed[j],
            #[trigger] placed[i],
        ) by {
            if j == entries.len() {
                lemma_entry_order(entries[i], entries.last(), e);
                if i < entries.len() - 1 {
                    assert(!entry_lt(entries[entries.len() - 1], entries[i]));
                }
            }
        }
        assert forall|i: int| 0 <= i < placed.len() implies {
            let x = #[trigger] placed[i];
            x == e || entries.contains(x)
        } by {
            if i < entries.len() {
                assert(entries[i] == placed[i]);
            }
        }
    } else {
        let front = entries.drop_last();
        let last = entries.last();
        lemma_placed(front, e);
        let rest = entry_placed(front, e);
        assert forall|i: int, j: int| 0 <= i < j < placed.len() implies !entry_lt(
            #[trigger] placed[j],
            #[trigger] placed[i],
        ) by {
            if j < rest.len() {
                assert(!entry_lt(rest[j], rest[i]));
            } else {
                let x = rest[i];
                if x == e {
                    lemma_entry_order(e, last, last);
                } else {
                    assert(front.contains(x));
                    let k = front.index_of(x);
                    assert(!entry_lt(entries[entries.len() - 1], entries[k]));
                }
            }
        }
        assert(entries =~= front.push(last));
        assert(placed.to_multiset() == rest.to_multiset().insert(last));
        assert(entries.to_multiset() == front.to_multiset().insert(last));
        assert(front.to_multiset().insert(e).insert(last) =~= front.to_multiset().insert(
            last,
        ).insert(e));
        assert forall|i: int| 0 <= i < placed.len() implies {
            let x = #[trigger] placed[i];
            x == e || entries.contains(x)
        } by {
            if i < rest.len() {
                assert(placed[i] == rest[i]);
                if rest[i] != e {
                    let k = front.index_of(rest[i]);
                    assert(entries[k] == rest[i]);
                }
            } else {
                assert(entries[entries.len() - 1] == last);
            }
        }
    }
}

/// The entries of a directory that are offered are listed, each as often as it occurs, and they
/// stand in order.
pub proof fn listing_is_complete_and_in_order(listing: Seq<EntryView>, files: bool)
    ensures
        entries_in_order(listed(listing, files)),
        listed(listing, files).to_multiset() == listing.filter(
            |e: EntryView| offered(e, files),
        ).to_multiset(),
    decreases listing.len(),
{
    broadcast use vstd::seq_lib::group_to_multiset_ensures;

    let keep = |e: EntryView| offered(e, files);
    reveal(Seq::filter);
    if listing.len() > 0 {
        listing_is_complete_and_in_order(listing.drop_last(), files);
        lemma_placed(listed(listing.drop_last(), files), listing.last());
        let rest = listing.drop_last().filter(keep);
        if keep(listing.last()) {
            assert(listing.filter(keep) == rest.push(listing.last()));
        } else {
            assert(listing.filter(keep) == rest);
        }
    } else {
        assert(listed(listing, files) =~= listing.filter(keep));
    }
}

// ── Repositories and their branches ────────────────────────────────

/// The repositories to choose from, and the branches of the one that was chosen.
pub struct RepoList {
    pub repos: Vec<RepoInfo>,
    /// The repository whose branches are offered.
    pub open: Option<usize>,
}

#[verifier::ext_equal]
pub ghost struct RepoListView {
    pub repos: Seq<RepoInfo>,
    pub branches: Seq<BranchInfo>,
}

impl View for RepoList {
    type V = RepoListView;

    open spec fn view(&self) -> RepoListView {
        RepoListView {
            repos: self.repos@,
            branches: match self.open {
                Some(i) => self.repos@[i as int].local_branches@,
                None => Seq::empty(),
            },
        }
    }
}

pub open spec fn repo_names(repos: Seq<RepoInfo>) -> Seq<Seq<char>> {
    repos.map_values(|r: RepoInfo| r.name@)
}

pub open spec fn repo_paths(repos: Seq<RepoInfo>) -> Seq<Seq<char>> {
    repos.map_values(|r: RepoInfo| r.path@)
}

impl RepoListView {
    /// The repositories whose name or path matches what was typed.
    pub open spec fn repo_matches(self, pattern: Seq<char>) -> Seq<Match> {
        ranking::filtered_by_either(repo_names(self.repos), repo_paths(self.repos), pattern)
    }

    /// The branches whose name matches what was typed.
    pub open spec fn branch_matches(self, pattern: Seq<char>) -> Seq<Match> {
        ranking::filtered(branch_picker::branch_names(self.branches), pattern)
    }

    pub open spec fn opened(self, idx: int) -> RepoListView {
        RepoListView { branches: self.repos[idx].local_branches@, ..self }
    }

    pub open spec fn closed(self) -> RepoListView {
        RepoListView { branches: Seq::empty(), ..self }
    }
}

impl RepoList {
    pub open spec fn wf(self) -> bool {
        self.open matches Some(i) ==> i < self.repos@.len()
    }

    pub fn new(repos: Vec<RepoInfo>) -> (l: Self)
        ensures
            l.wf(),
            l@ == (RepoListView { repos: repos@, branches: Seq::empty() }),
    {
        RepoList { repos, open: None }
    }

    /// Offers the branches of a repository.
    pub fn open(&mut self, idx: usize)
        requires
            idx < old(self)@.repos.len(),
        ensures
            final(self).wf(),
            final(self)@ == old(self)@.opened(idx as int),
    {
        self.open = Some(idx);
    }

    pub fn close(&mut self)
        ensures
            final(self).wf(),
            final(self)@ == old(self)@.closed(),
    {
        self.open = None;
    }

    /// How many branches are offered.
    pub fn branch_count(&self) -> (n: usize)
        requires
            self.wf(),
        ensures
            n == self@.branches.len(),
    {
        match self.open {
            Some(i) => self.repos[i].local_branches.len(),
            None => 0,
        }
    }

    pub fn branch(&self, idx: usize) -> (b: &BranchInfo)
        requires
            self.wf(),
            idx < self@.branches.len(),
        ensures
            *b == self@.branches[idx as int],
    {
        match self.open {
            Some(i) => &self.repos[i].local_branches[idx],
            None => &self.repos[0].local_branches[0],
        }
    }

    pub fn repo_matches(&self, pattern: &str) -> (left: Vec<Match>)
        ensures
            left@ == self@.repo_matches(pattern@),
            forall|k: int| 0 <= k < left@.len() ==> (#[trigger] left@[k]).0 < self@.repos.len(),
    {
        let mut names: Vec<&str> = Vec::new();
        let mut paths: Vec<&str> = Vec::new();
        let n: usize = self.repos.len();
        let mut i: usize = 0;
        while i < n
            invariant
                i <= n,
                n == self.repos@.len(),
                names@.len() == i,
                paths@.len() == i,
                forall|k: int| 0 <= k < i ==> (#[trigger] names@[k])@ == self.repos@[k].name@,
                forall|k: int| 0 <= k < i ==> (#[trigger] paths@[k])@ == self.repos@[k].path@,
            decreases n - i,
        {
            names.push(self.repos[i].name.as_str());
            paths.push(self.repos[i].path.as_str());
            i += 1;
        }
        let left = filter_by_either(&names, &paths, pattern);
        proof {
            assert(names@.map_values(|s: &str| s@) =~= repo_names(self.repos@));
            assert(paths@.map_values(|s: &str| s@) =~= repo_paths(self.repos@));
            ranking::lemma_filtered_by_either_in_range(
                repo_names(self.repos@),
                repo_paths(self.repos@),
                pattern@,
            );
        }
        left
    }

    pub fn branch_matches(&self, pattern: &str) -> (left: Vec<Match>)
        requires
            self.wf(),
        ensures
            left@ == self@.branch_matches(pattern@),
            forall|k: int|
                0 <= k < left@.len() ==> (#[trigger] left@[k]).0 < self@.branches.len(),
    {
        let mut names: Vec<&str> = Vec::new();
        let n: usize = self.branch_count();
        let mut i: usize = 0;
        while i < n
            invariant
                i <= n,
                self.wf(),
                n == self@.branches.len(),
                names@.len() == i,
                forall|k: int|
                    0 <= k < i ==> (#[trigger] names@[k])@ == self@.branches[k].name@,
            decreases n - i,
        {
            names.push(self.branch(i).name.as_str());
            i += 1;
        }
        let left = filter_names(&names, pattern);
        proof {
            assert(names@.map_values(|s: &str| s@) =~= branch_picker::branch_names(
                self@.branches,
            ));
            ranking::lemma_filtered_in_range(
                branch_picker::branch_names(self@.branches),
                pattern@,
            );
        }
        left
    }
}

/// Hidden entries are never offered, other directories always, and other files where files are
/// asked for and only with the right ending.
pub proof fn entries_are_offered(stem: Seq<char>, name: Seq<char>, is_dir: bool, files: bool)
    ensures
        ({
            let e = EntryView { name, is_dir };
            &&& name.len() > 0 && name[0] == '.' ==> !offered(e, files)
            &&& !(name.len() > 0 && name[0] == '.') && is_dir ==> offered(e, files)
            &&& !is_dir && !files ==> !offered(e, files)
            &&& stem.len() > 0 && stem[0] != '.' ==> offered(
                (EntryView { name: stem + ".json"@, is_dir: false }),
                true,
            )
        }),
        !is_dir && name.len() > 0 && name.last() != 'n' ==> !offered(
            (EntryView { name, is_dir }),
            files,
        ),
{
    reveal_strlit(".json");
    let full = stem + ".json"@;
    assert(full.skip(full.len() - 5) =~= ".json"@);
    if ends_in(name, ".json"@) {
        assert(name.skip(name.len() - 5)[4] == name.last());
    }
}

/// Directories come before files, and among their own kind names decide.
pub proof fn directories_come_first(a: EntryView, b: EntryView)
    ensures
        a.is_dir && !b.is_dir ==> entry_lt(a, b) && !entry_lt(b, a),
        a.is_dir == b.is_dir ==> (entry_lt(a, b) <==> text::lex_lt(a.name, b.name)),
{
}

/// A directory that is gone into lies in the one it was listed in, and has to be read first.
pub proof fn browsing_goes_into_what_is_listed(browser: BrowserView, idx: int)
    requires
        0 <= idx < browser.entries.len(),
    ensures
        ({
            let inside = browser.entered(idx);
            let name = browser.entries[idx].name;
            &&& inside.base.take(browser.base.len() as int) == browser.base
            &&& inside.base.len() == browser.base.len() + name.len() + 1
            &&& inside.base.subrange(
                browser.base.len() as int,
                (browser.base.len() + name.len()) as int,
            ) == name
            &&& inside.base.last() == '/'
            &&& inside.unread
            &&& inside.entries.len() == 0
        }),
{
    reveal_strlit("/");
    let inside = browser.entered(idx);
    let name = browser.entries[idx].name;
    assert(inside.base.take(browser.base.len() as int) =~= browser.base);
    assert(inside.base.subrange(
        browser.base.len() as int,
        (browser.base.len() + name.len()) as int,
    ) =~= name);
}

/// Reading keeps the place. There is no way up from the root.
pub proof fn reading_keeps_the_place(browser: BrowserView, listing: Seq<EntryView>, files: bool)
    ensures
        browser.read(listing, files).base == browser.base,
        !browser.read(listing, files).unread,
        browser.base == "/"@ ==> browser.above() == browser,
{
}

/// A path is shown without the slashes at its end, but for the root, and made a directory with
/// one.
pub proof fn slashes_at_the_end_are_settled(path: Seq<char>, slashes: Seq<char>)
    requires
        forall|i: int| 0 <= i < slashes.len() ==> #[trigger] slashes[i] == '/',
    ensures
        path.len() > 0 && path.last() != '/' ==> as_plain_path(path + slashes) == path,
        path.len() == 0 ==> as_plain_path(path + slashes) == "/"@,
        as_directory(path).last() == '/',
        path.len() > 0 && path.last() == '/' ==> as_directory(path) == path,
        !(path.len() > 0 && path.last() == '/') ==> as_directory(path) == path.push('/'),
    decreases slashes.len(),
{
    reveal_strlit("/");
    assert("/"@ =~= seq!['/']);
    assert(as_directory(path) =~= path || as_directory(path) =~= path.push('/'));
    let whole = path + slashes;
    if slashes.len() == 0 {
        assert(whole =~= path);
    } else {
        let front = slashes.drop_last();
        assert(whole.drop_last() =~= path + front);
        assert(whole.last() == slashes.last());
        slashes_at_the_end_are_settled(path, front);
    }
}

/// What is chosen is what the selection stands on. Typing and erasing select the best match
/// again, moving the cursor keeps the selection.
pub proof fn the_selection_is_chosen(chooser: ChooserView, matches: Seq<Match>, typed: Seq<char>)
    requires
        chooser.selected >= 0,
        0 <= chooser.edit.at <= chooser.edit.text.len(),
    ensures
        chooser.selected < matches.len() ==> chooser.choice(matches) == Some(
            matches[chooser.selected].0 as int,
        ),
        chooser.selected >= matches.len() ==> chooser.choice(matches) is None,
        chooser.typed(typed).selected == 0,
        chooser.typed(typed).edit == chooser.edit.inserted(typed),
        chooser.edit.at > 0 ==> chooser.erased().selected == 0,
        chooser.erased().edit == chooser.edit.erased(),
        chooser.left().selected == chooser.selected,
        chooser.right().selected == chooser.selected,
        chooser.left().edit == chooser.edit.left(),
        chooser.right().edit == chooser.edit.right(),
        chooser.selected > 0 ==> chooser.up().selected == chooser.selected - 1,
        chooser.selected + 1 < matches.len() ==> chooser.down(matches.len() as int).selected
            == chooser.selected + 1,
        chooser.up().edit == chooser.edit,
        chooser.down(matches.len() as int).edit == chooser.edit,
        fresh().selected == 0,
        fresh().edit.text.len() == 0,
{
}

/// The branches to choose from are the local ones of the repository that was opened.
pub proof fn opened_repositories_offer_their_branches(list: RepoListView, idx: int)
    requires
        0 <= idx < list.repos.len(),
    ensures
        list.opened(idx).branches == list.repos[idx].local_branches@,
        list.opened(idx).repos == list.repos,
        list.opened(idx).closed().branches.len() == 0,
        list.closed().repos == list.repos,
{
}

} // verus!
