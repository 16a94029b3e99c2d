//! Tab-completion for the focus-mode Terminal tab.
//!
//! Each terminal panel keeps its own `InputBuffer`: a local mirror of the characters the user
//! has typed since the last command boundary (Enter, Ctrl+C, Ctrl+U, Ctrl+G). The mirror is
//! imperfect: arrow-key navigation, `Ctrl+W`, paste of multi-line input, etc. won't be
//! reflected. That's an accepted trade-off: any drift is recoverable by pressing Enter or
//! Ctrl+U.
//!
//! When the user presses Tab, `compute_completions` looks at the buffer and returns
//!   * command candidates when the prefix is the first word and doesn't look like a path;
//!   * file and directory candidates otherwise, anchored at the working directory, `/` or
//!     `~/` depending on the prefix.
//!
//! The caller reads the directory that `directory_to_read` names and collects the commands.

use vstd::prelude::*;

use crate::editing;
use crate::sorting;
use crate::text;
use crate::sorting::{sort_by_keys, SortKey};
use crate::text::{chars_of, copy_of, joined, starts_with, string_of, text_eq};

verus! {

/// The longest input that is mirrored, in bytes.
pub const MAX_BUFFER_LEN: usize = 1024;

/// How many candidates are offered at most.
pub const MAX_CANDIDATES: usize = 64;

/// Number of items shown at once in the completion popup.
pub const POPUP_VISIBLE_ROWS: usize = 8;

// ── The mirror of what was typed ───────────────────────────────────

/// What the user has typed since the last command boundary.
pub struct InputBuffer {
    text: String,
}

impl View for InputBuffer {
    type V = Seq<char>;

    closed spec fn view(&self) -> Seq<char> {
        self.text@
    }
}

/// What a buffer holds after more text has come in: all of it, or nothing new where it would
/// grow too long.
pub open spec fn buffered(text: Seq<char>, more: Seq<char>) -> Seq<char> {
    if editing::byte_len(text) + editing::byte_len(more) <= MAX_BUFFER_LEN {
        text + more
    } else {
        text
    }
}

impl InputBuffer {
    /// The buffer is no longer than its limit.
    pub open spec fn wf(self) -> bool {
        editing::byte_len(self@) <= MAX_BUFFER_LEN
    }

    pub fn new() -> (b: Self)
        ensures
            b@ == Seq::<char>::empty(),
            b.wf(),
    {
        InputBuffer { text: String::new() }
    }

    pub fn as_str(&self) -> (s: &str)
        ensures
            s@ == self@,
    {
        self.text.as_str()
    }

    pub fn is_empty(&self) -> (empty: bool)
        ensures
            empty == (self@.len() == 0),
    {
        self.text.as_str().is_empty()
    }

    pub fn push_char(&mut self, c: char)
        ensures
            final(self)@ == buffered(old(self)@, seq![c]),
            old(self).wf() ==> final(self).wf(),
    {
        let mut s = String::new();
        s.push(c);
        assert(s@ =~= seq![c]);
        self.push_str(s.as_str());
    }

    pub fn push_str(&mut self, s: &str)
        ensures
            final(self)@ == buffered(old(self)@, s@),
            old(self).wf() ==> final(self).wf(),
    {
        let len = self.text.as_str().as_bytes().len();
        let more = s.as_bytes().len();
        if len <= MAX_BUFFER_LEN && more <= MAX_BUFFER_LEN - len {
            proof {
                editing::lemma_encode_concat(self.text@, s@);
            }
            self.text.push_str(s);
        }
    }

    /// Removes the last character, if there is one.
    pub fn pop_char(&mut self)
        ensures
            final(self)@ == (if old(self)@.len() > 0 {
                old(self)@.drop_last()
            } else {
                old(self)@
            }),
            old(self).wf() ==> final(self).wf(),
    {
        let chars = chars_of(self.text.as_str());
        if chars.len() > 0 {
            let shorter = string_of(chars.as_slice(), 0, chars.len() - 1);
            proof {
                assert(shorter@ =~= self.text@.drop_last());
                assert(self.text@ =~= shorter@ + seq![self.text@.last()]);
                editing::lemma_encode_concat(shorter@, seq![self.text@.last()]);
            }
            self.text = shorter;
        }
    }

    pub fn clear(&mut self)
        ensures
            final(self)@ == Seq::<char>::empty(),
            final(self).wf(),
    {
        self.text = String::new();
    }
}

impl Default for InputBuffer {
    fn default() -> (b: Self)
        ensures
            b@ == Seq::<char>::empty(),
            b.wf(),
    {
        InputBuffer::new()
    }
}

// ── Candidates ─────────────────────────────────────────────────────

#[derive(Clone, Copy, Debug, PartialEq, Eq, Structural)]
pub enum CompletionKind {
    /// Trailing `/` so the user can keep typing inside the directory.
    Directory,
    /// Trailing space.
    File,
    /// Trailing space.
    Command,
}

#[derive(Clone, Debug)]
pub struct CompletionItem {
    pub display: String,
    pub kind: CompletionKind,
}

pub ghost struct ItemView {
    pub display: Seq<char>,
    pub kind: CompletionKind,
}

impl View for CompletionItem {
    type V = ItemView;

    open spec fn view(&self) -> ItemView {
        ItemView { display: self.display@, kind: self.kind }
    }
}

pub open spec fn items_view(items: Seq<CompletionItem>) -> Seq<ItemView> {
    items.map_values(|i: CompletionItem| i@)
}

/// The word being completed and what it could become.
pub struct CompletionResult {
    pub prefix: String,
    pub items: Vec<CompletionItem>,
}

/// An entry of a directory.
#[derive(Clone, Debug)]
pub struct DirEntry {
    pub name: String,
    /// Whether it is a directory, or a link to one.
    pub is_dir: bool,
}

/// The word being completed: what follows the last space.
pub open spec fn last_word(buffer: Seq<char>) -> Seq<char>
    decreases buffer.len(),
{
    if buffer.len() == 0 || buffer.last() == ' ' {
        Seq::empty()
    } else {
        last_word(buffer.drop_last()).push(buffer.last())
    }
}

/// Whether a word is meant as a path.
pub open spec fn looks_like_path(word: Seq<char>) -> bool {
    word.len() > 0 && (word[0] == '.' || word[0] == '/' || word[0] == '~')
}

/// Whether the word being completed is a command: the first word, and no path.
pub open spec fn completes_command(buffer: Seq<char>) -> bool {
    last_word(buffer) == buffer && !looks_like_path(buffer)
}

/// Where to look for the rest of a path: the directory, the part of a name that is typed
/// already, and what comes before the name on screen.
#[verifier::ext_equal]
pub ghost struct PathQuery {
    pub dir: Seq<char>,
    pub leaf: Seq<char>,
    pub anchor: Seq<char>,
}

/// What follows the last slash.
pub open spec fn after_last_slash(s: Seq<char>) -> Seq<char>
    decreases s.len(),
{
    if s.len() == 0 || s.last() == '/' {
        Seq::empty()
    } else {
        after_last_slash(s.drop_last()).push(s.last())
    }
}

/// A path followed from a base: an absolute path leads away from any base.
pub open spec fn path_join(base: Seq<char>, path: Seq<char>) -> Seq<char> {
    if path.len() > 0 && path[0] == '/' {
        path
    } else if base.len() == 0 || base.last() == '/' {
        base + path
    } else {
        base + seq!['/'] + path
    }
}

/// Splits a path without its anchor into directory and leaf.
pub open spec fn split_path(path: Seq<char>, base: Seq<char>, anchor: Seq<char>) -> PathQuery {
    let leaf = after_last_slash(path);
    if leaf.len() == path.len() {
        PathQuery { dir: base, leaf: path, anchor }
    } else {
        let dir_part = path.take(path.len() - leaf.len() - 1);
        PathQuery {
            dir: if dir_part.len() == 0 {
                base
            } else {
                path_join(base, dir_part)
            },
            leaf,
            anchor: anchor + dir_part + seq!['/'],
        }
    }
}

/// Where to look for the rest of a word; nowhere for `~` without a home directory.
pub open spec fn path_query(
    word: Seq<char>,
    working_dir: Seq<char>,
    home: Option<Seq<char>>,
) -> Option<PathQuery> {
    if word.len() > 0 && word[0] == '~' {
        let rest = word.skip(1);
        let after = if rest.len() > 0 && rest[0] == '/' {
            rest.skip(1)
        } else {
            rest
        };
        match home {
            Some(h) => Some(split_path(after, h, "~/"@)),
            None => None,
        }
    } else if word.len() > 0 && word[0] == '/' {
        Some(split_path(word.skip(1), "/"@, "/"@))
    } else {
        Some(split_path(word, working_dir, ""@))
    }
}

/// Whether an entry fits what was typed. Names with a leading dot are offered only where a
/// dot was typed.
pub open spec fn entry_fits(name: Seq<char>, leaf: Seq<char>) -> bool {
    &&& leaf.is_prefix_of(name)
    &&& (leaf.len() > 0 && leaf[0] == '.') || !(name.len() > 0 && name[0] == '.')
}

pub open spec fn entry_item(entry: DirEntry, anchor: Seq<char>) -> ItemView {
    ItemView {
        display: anchor + entry.name@,
        kind: if entry.is_dir {
            CompletionKind::Directory
        } else {
            CompletionKind::File
        },
    }
}

/// The entries that fit, in the order of the listing.
pub open spec fn fitting_entries(entries: Seq<DirEntry>, query: PathQuery) -> Seq<ItemView>
    decreases entries.len(),
{
    if entries.len() == 0 {
        Seq::empty()
    } else {
        let rest = fitting_entries(entries.drop_last(), query);
        if entry_fits(entries.last().name@, query.leaf) {
            rest.push(entry_item(entries.last(), query.anchor))
        } else {
            rest
        }
    }
}

/// The commands that fit, in the order of the list.
pub open spec fn fitting_commands(names: Seq<Seq<char>>, word: Seq<char>) -> Seq<ItemView>
    decreases names.len(),
{
    if names.len() == 0 {
        Seq::empty()
    } else {
        let rest = fitting_commands(names.drop_last(), word);
        if word.is_prefix_of(names.last()) {
            rest.push(ItemView { display: names.last(), kind: CompletionKind::Command })
        } else {
            rest
        }
    }
}

pub open spec fn display_keys(items: Seq<ItemView>) -> Seq<sorting::KeyView> {
    items.map_values(|i: ItemView| sorting::KeyView { group: 0, name: None, id: i.display })
}

pub open spec fn all_indices(n: nat) -> Seq<usize> {
    Seq::new(n, |i: int| i as usize)
}

/// Candidates in dictionary order, the first few of them.
pub open spec fn offered(items: Seq<ItemView>) -> Seq<ItemView> {
    let order = sorting::sorted(all_indices(items.len()), display_keys(items));
    let n = if order.len() <= MAX_CANDIDATES {
        order.len()
    } else {
        MAX_CANDIDATES as nat
    };
    Seq::new(n, |i: int| items[order[i] as int])
}

/// The candidates for a buffer, given the home directory, the commands that can be run and
/// the listing of the directory to look in.
pub open spec fn completions(
    buffer: Seq<char>,
    working_dir: Seq<char>,
    home: Option<Seq<char>>,
    commands: Seq<Seq<char>>,
    entries: Seq<DirEntry>,
) -> Seq<ItemView> {
    let word = last_word(buffer);
    if word.len() == 0 {
        Seq::empty()
    } else if completes_command(buffer) {
        offered(fitting_commands(commands, word))
    } else {
        match path_query(word, working_dir, home) {
            Some(query) => offered(fitting_entries(entries, query)),
            None => Seq::empty(),
        }
    }
}

// ── Computing them ─────────────────────────────────────────────────

fn sort_and_limit(items: Vec<CompletionItem>) -> (kept: Vec<CompletionItem>)
    ensures
        items_view(kept@) == offered(items_view(items@)),
{
    let ghost views = items_view(items@);
    let mut keys: Vec<SortKey> = Vec::new();
    let mut chosen: Vec<usize> = Vec::new();
    let mut i: usize = 0;
    while i < items.len()
        invariant
            i <= items@.len(),
            views == items_view(items@),
            keys@.len() == i,
            chosen@ == all_indices(i as nat),
            forall|k: int|
                0 <= k < i ==> (#[trigger] keys@[k])@ == (sorting::KeyView {
                    group: 0,
                    name: None,
                    id: views[k].display,
                }),
        decreases items@.len() - i,
    {
        keys.push(SortKey { group: 0, name: None, id: items[i].display.clone() });
        chosen.push(i);
        i += 1;
        assert(chosen@ =~= all_indices(i as nat));
    }
    assert(sorting::keys_view(keys@) =~= display_keys(views));
    let order = sort_by_keys(&chosen, &keys);
    let mut kept: Vec<CompletionItem> = Vec::new();
    let n: usize = if order.len() <= MAX_CANDIDATES {
        order.len()
    } else {
        MAX_CANDIDATES
    };
    let mut k: usize = 0;
    while k < n
        invariant
            k <= n <= order@.len(),
            views == items_view(items@),
            items@.len() == keys@.len(),
            order@ == sorting::sorted(all_indices(views.len()), display_keys(views)),
            n == (if order@.len() <= MAX_CANDIDATES {
                order@.len()
            } else {
                MAX_CANDIDATES as nat
            }),
            forall|j: int| 0 <= j < order@.len() ==> (#[trigger] order@[j]) < keys@.len(),
            items_view(kept@) == offered(views).take(k as int),
        decreases n - k,
    {
        let at = order[k];
        let ghost before = items_view(kept@);
        let item = CompletionItem { display: items[at].display.clone(), kind: items[at].kind };
        kept.push(item);
        k += 1;
        assert(items_view(kept@) =~= before.push(item@));
        assert(offered(views).take(k as int) =~= offered(views).take(k - 1).push(
            offered(views)[k - 1],
        ));
    }
    assert(offered(views).take(k as int) =~= offered(views));
    kept
}

/// The position behind the last space or slash: where the last word or leaf begins.
fn start_of_last(chars: &Vec<char>, mark: char) -> (at: usize)
    requires
        mark == ' ' || mark == '/',
    ensures
        at <= chars@.len(),
        mark == ' ' ==> chars@.skip(at as int) == last_word(chars@),
        mark == '/' ==> chars@.skip(at as int) == after_last_slash(chars@),
{
    let mut at: usize = chars.len();
    proof {
        lemma_last_run(chars@, chars@.len() as int, mark);
    }
    while at > 0 && chars[at - 1] != mark
        invariant
            at <= chars@.len(),
            forall|k: int| at <= k < chars@.len() ==> chars@[k] != mark,
        decreases at,
    {
        at -= 1;
    }
    proof {
        lemma_last_run(chars@, at as int, mark);
    }
    at
}

proof fn lemma_last_run(s: Seq<char>, at: int, mark: char)
    requires
        0 <= at <= s.len(),
        forall|k: int| at <= k < s.len() ==> s[k] != mark,
        at == s.len() || at == 0 || s[at - 1] == mark,
    ensures
        mark == ' ' && (at == 0 || s[at - 1] == mark) ==> s.skip(at) == last_word(s),
        mark == '/' && (at == 0 || s[at - 1] == mark) ==> s.skip(at) == after_last_slash(s),
    decreases s.len(),
{
    if at < s.len() {
        let front = s.drop_last();
        assert forall|k: int| at <= k < front.len() implies front[k] != mark by {
            assert(s[k] != mark);
        }
        if at == 0 || s[at - 1] == mark {
            lemma_last_run(front, at, mark);
            assert(s[s.len() - 1] != mark);
            assert(s.skip(at) =~= front.skip(at).push(s.last()));
        }
    } else {
        assert(s.skip(at) =~= Seq::<char>::empty());
    }
}

/// A path query in executable form.
struct Query {
    dir: String,
    leaf: String,
    anchor: String,
}

impl View for Query {
    type V = PathQuery;

    closed spec fn view(&self) -> PathQuery {
        PathQuery { dir: self.dir@, leaf: self.leaf@, anchor: self.anchor@ }
    }
}

fn join_path(base: &str, path: &str) -> (joined: String)
    ensures
        joined@ == path_join(base@, path@),
{
    let p = chars_of(path);
    if p.len() > 0 && p[0] == '/' {
        return copy_of(path);
    }
    let b = chars_of(base);
    let mut s = copy_of(base);
    if b.len() > 0 && b[b.len() - 1] != '/' {
        s.push('/');
        assert(s@ =~= base@ + seq!['/']);
    }
    s.push_str(path);
    s
}

/// Split a path (already stripped of its `~` or `/` anchor) into the directory to read, the
/// leaf-name prefix to filter by, and the display prefix that, when concatenated with each
/// entry name, reconstructs what the user sees on screen.
fn split_dir_leaf(path: &Vec<char>, base: &str, display_anchor: &str) -> (query: Query)
    ensures
        query@ == split_path(path@, base@, display_anchor@),
{
    let at = start_of_last(path, '/');
    let leaf = string_of(path.as_slice(), at, path.len());
    assert(leaf@ =~= after_last_slash(path@));
    if at == 0 {
        assert(leaf@ =~= path@);
        return Query { dir: copy_of(base), leaf, anchor: copy_of(display_anchor) };
    }
    let dir_part = string_of(path.as_slice(), 0, at - 1);
    assert(dir_part@ =~= path@.take(path@.len() - leaf@.len() - 1));
    let dir = if at == 1 {
        copy_of(base)
    } else {
        join_path(base, dir_part.as_str())
    };
    let mut anchor = joined(display_anchor, dir_part.as_str());
    anchor.push('/');
    assert(anchor@ =~= display_anchor@ + dir_part@ + seq!['/']);
    Query { dir, leaf, anchor }
}

pub open spec fn opt_text(s: Option<&str>) -> Option<Seq<char>> {
    match s {
        Some(t) => Some(t@),
        None => None,
    }
}

fn tail(chars: &Vec<char>, from: usize) -> (rest: Vec<char>)
    requires
        from <= chars@.len(),
    ensures
        rest@ == chars@.skip(from as int),
{
    let s = string_of(chars.as_slice(), from, chars.len());
    let rest = chars_of(s.as_str());
    assert(rest@ =~= chars@.skip(from as int));
    rest
}

fn query_for(word: &Vec<char>, working_dir: &str, home: Option<&str>) -> (query: Option<Query>)
    ensures
        match query {
            Some(q) => path_query(word@, working_dir@, opt_text(home)) == Some(q@),
            None => path_query(word@, working_dir@, opt_text(home)) is None,
        },
{
    if word.len() > 0 && word[0] == '~' {
        let rest = tail(word, 1);
        match home {
            Some(h) => {
                let q = if rest.len() > 0 && rest[0] == '/' {
                    let after = tail(&rest, 1);
                    split_dir_leaf(&after, h, "~/")
                } else {
                    split_dir_leaf(&rest, h, "~/")
                };
                Some(q)
            },
            None => None,
        }
    } else if word.len() > 0 && word[0] == '/' {
        let rest = tail(word, 1);
        Some(split_dir_leaf(&rest, "/", "/"))
    } else {
        Some(split_dir_leaf(word, working_dir, ""))
    }
}

/// The directory whose listing the completion of `buffer` needs, if it needs one.
pub fn directory_to_read(buffer: &str, working_dir: &str, home: Option<&str>) -> (dir: Option<
    String,
>)
    ensures
        match dir {
            Some(d) => {
                &&& last_word(buffer@).len() > 0
                &&& !completes_command(buffer@)
                &&& path_query(last_word(buffer@), working_dir@, opt_text(home)) matches Some(q)
                    && q.dir == d@
            },
            None => {
                ||| last_word(buffer@).len() == 0
                ||| completes_command(buffer@)
                ||| path_query(last_word(buffer@), working_dir@, opt_text(home)) is None
            },
        },
{
    let chars = chars_of(buffer);
    let at = start_of_last(&chars, ' ');
    if at == chars.len() {
        return None;
    }
    let word = tail(&chars, at);
    if at == 0 {
        assert(word@ =~= buffer@);
    }
    if at == 0 && !path_like(&word) {
        return None;
    }
    proof {
        if at > 0 {
            assert(word@.len() < buffer@.len());
        }
    }
    match query_for(&word, working_dir, home) {
        Some(q) => Some(q.dir),
        None => None,
    }
}

fn path_like(word: &Vec<char>) -> (yes: bool)
    ensures
        yes == looks_like_path(word@),
{
    word.len() > 0 && (word[0] == '.' || word[0] == '/' || word[0] == '~')
}

fn path_completions(query: &Query, entries: &Vec<DirEntry>) -> (items: Vec<CompletionItem>)
    ensures
        items_view(items@) == offered(fitting_entries(entries@, query@)),
{
    let leaf = chars_of(query.leaf.as_str());
    // Show dotfiles only when the user has explicitly typed a leading dot.
    let show_hidden = leaf.len() > 0 && leaf[0] == '.';
    let mut items: Vec<CompletionItem> = Vec::new();
    let mut i: usize = 0;
    assert(entries@.take(0) =~= Seq::<DirEntry>::empty());
    assert(items_view(items@) =~= fitting_entries(entries@.take(0), query@));
    while i < entries.len()
        invariant
            i <= entries@.len(),
            leaf@ == query.leaf@,
            show_hidden == (leaf@.len() > 0 && leaf@[0] == '.'),
            items_view(items@) == fitting_entries(entries@.take(i as int), query@),
        decreases entries@.len() - i,
    {
        let ghost before = items_view(items@);
        assert(entries@.take(i + 1).drop_last() =~= entries@.take(i as int));
        let name = chars_of(entries[i].name.as_str());
        let hidden = name.len() > 0 && name[0] == '.';
        if (show_hidden || !hidden) && starts_with(name.as_slice(), query.leaf.as_str()) {
            let display = joined(query.anchor.as_str(), entries[i].name.as_str());
            let kind = if entries[i].is_dir {
                CompletionKind::Directory
            } else {
                CompletionKind::File
            };
            let item = CompletionItem { display, kind };
            items.push(item);
            assert(items_view(items@) =~= before.push(item@));
            assert(item@ == entry_item(entries@[i as int], query@.anchor));
        }
        i += 1;
    }
    assert(entries@.take(i as int) =~= entries@);
    sort_and_limit(items)
}

fn command_completions(word: &str, commands: &Vec<String>) -> (items: Vec<CompletionItem>)
    ensures
        items_view(items@) == offered(fitting_commands(text::strings_view(commands@), word@)),
{
    let ghost names = text::strings_view(commands@);
    let mut items: Vec<CompletionItem> = Vec::new();
    let mut i: usize = 0;
    assert(names.take(0) =~= Seq::<Seq<char>>::empty());
    assert(items_view(items@) =~= fitting_commands(names.take(0), word@));
    while i < commands.len()
        invariant
            i <= commands@.len(),
            names == text::strings_view(commands@),
            items_view(items@) == fitting_commands(names.take(i as int), word@),
        decreases commands@.len() - i,
    {
        let ghost before = items_view(items@);
        assert(names.take(i + 1).drop_last() =~= names.take(i as int));
        let name = chars_of(commands[i].as_str());
        if starts_with(name.as_slice(), word) {
            let item = CompletionItem {
                display: commands[i].clone(),
                kind: CompletionKind::Command,
            };
            items.push(item);
            assert(items_view(items@) =~= before.push(item@));
        }
        i += 1;
    }
    assert(names.take(i as int) =~= names);
    sort_and_limit(items)
}

/// Inspect `buffer` and produce candidates relevant to the last word.
///
/// `commands` are the programs that can be run, and `entries` is the listing of the directory
/// that `directory_to_read` names, empty where it cannot be read. Returns `None` when the
/// buffer is empty, ends in a space, or no candidate matches: the caller then forwards the
/// Tab byte and lets the shell handle it.
pub fn compute_completions(
    buffer: &str,
    working_dir: &str,
    home: Option<&str>,
    commands: &Vec<String>,
    entries: &Vec<DirEntry>,
) -> (result: Option<CompletionResult>)
    ensures
        ({
            let items = completions(
                buffer@,
                working_dir@,
                opt_text(home),
                text::strings_view(commands@),
                entries@,
            );
            match result {
                Some(r) => {
                    &&& r.prefix@ == last_word(buffer@)
                    &&& items_view(r.items@) == items
                    &&& items.len() > 0
                },
                None => items.len() == 0,
            }
        }),
{
    let chars = chars_of(buffer);
    let at = start_of_last(&chars, ' ');
    if at == chars.len() {
        return None;
    }
    let word = tail(&chars, at);
    let prefix = string_of(chars.as_slice(), at, chars.len());
    assert(prefix@ =~= last_word(buffer@));
    if at == 0 {
        assert(word@ =~= buffer@);
    }
    proof {
        if at > 0 {
            assert(word@.len() < buffer@.len());
        }
    }
    let items = if at == 0 && !path_like(&word) {
        command_completions(prefix.as_str(), commands)
    } else {
        match query_for(&word, working_dir, home) {
            Some(q) => path_completions(&q, entries),
            None => Vec::new(),
        }
    };
    assert(items_view(items@).len() == items@.len());
    if items.len() == 0 {
        None
    } else {
        Some(CompletionResult { prefix, items })
    }
}

// ── The commands that can be run ───────────────────────────────────

/// The programs found along the search path, each once.
pub struct Executables {
    pub names: Vec<String>,
}

impl Executables {
    /// No name occurs twice.
    pub open spec fn wf(self) -> bool {
        text::strings_view(self.names@).no_duplicates()
    }

    pub fn new() -> (e: Self)
        ensures
            e.wf(),
            e.names@.len() == 0,
    {
        Executables { names: Vec::new() }
    }

    /// Takes in an entry of a directory on the search path; directories do not count.
    pub fn add_entry(&mut self, name: &str, is_dir: bool)
        requires
            old(self).wf(),
        ensures
            final(self).wf(),
            text::strings_view(final(self).names@) == (if is_dir || text::strings_view(
                old(self).names@,
            ).contains(name@) {
                text::strings_view(old(self).names@)
            } else {
                text::strings_view(old(self).names@).push(name@)
            }),
    {
        let ghost names = text::strings_view(self.names@);
        if is_dir {
            return ;
        }
        let mut i: usize = 0;
        while i < self.names.len()
            invariant
                i <= self.names@.len(),
                names == text::strings_view(self.names@),
                names.no_duplicates(),
                forall|k: int| 0 <= k < i ==> names[k] != name@,
            decreases self.names@.len() - i,
        {
            if text_eq(self.names[i].as_str(), name) {
                assert(names[i as int] == name@);
                return ;
            }
            i += 1;
        }
        let owned = copy_of(name);
        self.names.push(owned);
        assert(text::strings_view(self.names@) =~= names.push(name@));
    }
}

// ── The popup ──────────────────────────────────────────────────────

/// The list of candidates that is open, and what is selected in it.
pub struct CompletionState {
    pub prefix: String,
    pub items: Vec<CompletionItem>,
    pub selected: usize,
    pub scroll: usize,
}

impl CompletionState {
    /// The selected item is in view.
    pub open spec fn in_view(self) -> bool {
        self.scroll <= self.selected < self.scroll + POPUP_VISIBLE_ROWS
    }

    pub fn move_up(&mut self)
        ensures
            final(self).selected == (if old(self).selected == 0 {
                0
            } else {
                old(self).selected - 1
            }),
            final(self).scroll == (if 0 < old(self).selected && old(self).selected - 1 < old(self).scroll {
                old(self).selected - 1
            } else {
                old(self).scroll as int
            }),
            *final(self) == (CompletionState {
                selected: final(self).selected,
                scroll: final(self).scroll,
                ..*old(self)
            }),
            old(self).in_view() ==> final(self).in_view(),
    {
        if self.selected == 0 {
            return ;
        }
        self.selected -= 1;
        if self.selected < self.scroll {
            self.scroll = self.selected;
        }
    }

    pub fn move_down(&mut self)
        ensures
            final(self).selected == (if old(self).selected + 1 >= old(self).items@.len() {
                old(self).selected as int
            } else {
                old(self).selected + 1
            }),
            final(self).scroll == (if final(self).selected > old(self).selected && final(self).selected >= old(self).scroll + POPUP_VISIBLE_ROWS {
                final(self).selected + 1 - POPUP_VISIBLE_ROWS
            } else {
                old(self).scroll as int
            }),
            *final(self) == (CompletionState {
                selected: final(self).selected,
                scroll: final(self).scroll,
                ..*old(self)
            }),
            old(self).in_view() ==> final(self).in_view(),
    {
        if self.selected >= self.items.len() || self.selected + 1 >= self.items.len() {
            return ;
        }
        self.selected += 1;
        if self.selected >= POPUP_VISIBLE_ROWS && self.selected - POPUP_VISIBLE_ROWS
            >= self.scroll {
            self.scroll = self.selected + 1 - POPUP_VISIBLE_ROWS;
        }
    }
}

// ── Laws ───────────────────────────────────────────────────────────

/// No more candidates are offered than there is room for, and no more than there are.
pub proof fn offers_are_limited(items: Seq<ItemView>)
    ensures
        offered(items).len() <= MAX_CANDIDATES,
        offered(items).len() <= items.len(),
{
    broadcast use vstd::seq_lib::group_to_multiset_ensures;

    crate::sorting::sorting_permutes_into_order(all_indices(items.len()), display_keys(items));
    let order = sorting::sorted(all_indices(items.len()), display_keys(items));
    assert(order.len() == order.to_multiset().len());
    assert(all_indices(items.len()).len() == all_indices(items.len()).to_multiset().len());
}

/// Every path that is offered continues the leaf that was typed, and hidden names are offered
/// only where a dot was typed.
pub proof fn offered_entries_continue_the_word(
    entries: Seq<DirEntry>,
    query: PathQuery,
    i: int,
)
    requires
        0 <= i < fitting_entries(entries, query).len(),
    ensures
        exists|k: int|
            0 <= k < entries.len() && #[trigger] entry_item(entries[k], query.anchor)
                == fitting_entries(entries, query)[i] && entry_fits(
                entries[k].name@,
                query.leaf,
            ),
    decreases entries.len(),
{
    let front = entries.drop_last();
    let rest = fitting_entries(front, query);
    if i < rest.len() {
        offered_entries_continue_the_word(front, query, i);
        let k = choose|k: int|
            0 <= k < front.len() && #[trigger] entry_item(front[k], query.anchor) == rest[i]
                && entry_fits(front[k].name@, query.leaf);
        assert(entry_item(entries[k], query.anchor) == fitting_entries(entries, query)[i]);
    } else {
        let k = entries.len() - 1;
        assert(entry_item(entries[k], query.anchor) == fitting_entries(entries, query)[i]);
    }
}

/// A word is split without loss: what is shown before a name, followed by the part of the name
/// that was typed, is the word behind its anchor.
pub proof fn splitting_keeps_the_word(path: Seq<char>, base: Seq<char>, anchor: Seq<char>)
    ensures
        split_path(path, base, anchor).anchor + split_path(path, base, anchor).leaf == anchor
            + path,
{
    lemma_after_last_slash(path);
    let q = split_path(path, base, anchor);
    assert(q.anchor + q.leaf =~= anchor + path);
}

proof fn lemma_after_last_slash(s: Seq<char>)
    ensures
        after_last_slash(s).len() <= s.len(),
        after_last_slash(s) == s.skip(s.len() - after_last_slash(s).len()),
        after_last_slash(s).len() < s.len() ==> s[s.len() - after_last_slash(s).len() - 1] == '/',
    decreases s.len(),
{
    if s.len() > 0 && s.last() != '/' {
        lemma_after_last_slash(s.drop_last());
        assert(after_last_slash(s) =~= s.skip(s.len() - after_last_slash(s).len()));
    } else {
        assert(after_last_slash(s) =~= s.skip(s.len() as int));
    }
}

/// Whether a text holds no slash.
pub open spec fn no_slash(s: Seq<char>) -> bool {
    forall|i: int| 0 <= i < s.len() ==> #[trigger] s[i] != '/'
}

/// Whether a text holds no space.
pub open spec fn no_space(s: Seq<char>) -> bool {
    forall|i: int| 0 <= i < s.len() ==> #[trigger] s[i] != ' '
}

/// The word that is completed is the one behind the last space, or all that was typed.
pub proof fn last_word_is_completed(front: Seq<char>, word: Seq<char>)
    requires
        no_space(word),
    ensures
        last_word(front + seq![' '] + word) == word,
        last_word(word) == word,
{
    let s = front + seq![' '] + word;
    let at = front.len() as int + 1;
    assert forall|k: int| at <= k < s.len() implies s[k] != ' ' by {
        assert(s[k] == word[k - at]);
    }
    lemma_last_run(s, at, ' ');
    assert(s.skip(at) =~= word);
    lemma_last_run(word, 0, ' ');
    assert(word.skip(0) =~= word);
}

proof fn lemma_leaf(dir: Seq<char>, leaf: Seq<char>)
    requires
        no_slash(leaf),
    ensures
        after_last_slash(dir + seq!['/'] + leaf) == leaf,
        after_last_slash(leaf) == leaf,
{
    let s = dir + seq!['/'] + leaf;
    let at = dir.len() as int + 1;
    assert forall|k: int| at <= k < s.len() implies s[k] != '/' by {
        assert(s[k] == leaf[k - at]);
    }
    lemma_last_run(s, at, '/');
    assert(s.skip(at) =~= leaf);
    lemma_last_run(leaf, 0, '/');
    assert(leaf.skip(0) =~= leaf);
}

/// For a word that starts at the root, the directory that is read is the one that the word names:
/// all of it before the last slash, or the root itself. What was typed of a name is the rest, and
/// what is shown before a name is what was typed before it.
pub proof fn rooted_words_name_their_directory(
    dir: Seq<char>,
    leaf: Seq<char>,
    working_dir: Seq<char>,
    home: Option<Seq<char>>,
)
    requires
        no_slash(leaf),
        dir.len() > 0,
        dir[0] != '/',
    ensures
        path_query(seq!['/'] + dir + seq!['/'] + leaf, working_dir, home) == Some(
            PathQuery { dir: seq!['/'] + dir, leaf, anchor: seq!['/'] + dir + seq!['/'] },
        ),
        path_query(seq!['/'] + leaf, working_dir, home) == Some(
            PathQuery { dir: seq!['/'], leaf, anchor: seq!['/'] },
        ),
{
    reveal_strlit("/");
    assert("/"@ =~= seq!['/']);
    lemma_leaf(dir, leaf);
    let word = seq!['/'] + dir + seq!['/'] + leaf;
    let path = dir + seq!['/'] + leaf;
    assert(word.skip(1) =~= path);
    assert(path.take(path.len() - leaf.len() - 1) =~= dir);
    let q = path_query(word, working_dir, home)->0;
    assert(q.dir =~= seq!['/'] + dir);
    assert(q.anchor =~= seq!['/'] + dir + seq!['/']);
    assert((seq!['/'] + leaf).skip(1) =~= leaf);
}

/// For any other word that is not the home directory's, the directory that is read lies below the
/// working directory: it is the working directory, a slash and the word before its last slash.
pub proof fn other_words_start_at_the_working_directory(
    dir: Seq<char>,
    leaf: Seq<char>,
    working_dir: Seq<char>,
    home: Option<Seq<char>>,
)
    requires
        no_slash(leaf),
        dir.len() > 0,
        dir[0] != '/' && dir[0] != '~',
        leaf.len() > 0 ==> leaf[0] != '~',
        working_dir.len() > 0,
        working_dir.last() != '/',
    ensures
        path_query(dir + seq!['/'] + leaf, working_dir, home) == Some(
            PathQuery { dir: working_dir + seq!['/'] + dir, leaf, anchor: dir + seq!['/'] },
        ),
        path_query(leaf, working_dir, home) == Some(
            PathQuery { dir: working_dir, leaf, anchor: Seq::empty() },
        ),
{
    reveal_strlit("");
    assert(""@ =~= Seq::<char>::empty());
    lemma_leaf(dir, leaf);
    let word = dir + seq!['/'] + leaf;
    assert(word[0] == dir[0]);
    assert(word.take(word.len() - leaf.len() - 1) =~= dir);
    let q = path_query(word, working_dir, home)->0;
    assert(q.anchor =~= dir + seq!['/']);
}

/// For a word that starts with a tilde and a slash, the directory that is read lies below the home
/// directory, and what is shown keeps the tilde. Without a home directory none is read.
pub proof fn tilde_words_start_at_home(
    dir: Seq<char>,
    leaf: Seq<char>,
    working_dir: Seq<char>,
    home: Seq<char>,
)
    requires
        no_slash(leaf),
        dir.len() > 0,
        dir[0] != '/',
        home.len() > 0,
        home.last() != '/',
    ensures
        path_query(seq!['~', '/'] + dir + seq!['/'] + leaf, working_dir, Some(home)) == Some(
            PathQuery {
                dir: home + seq!['/'] + dir,
                leaf,
                anchor: seq!['~', '/'] + dir + seq!['/'],
            },
        ),
        path_query(seq!['~', '/'] + leaf, working_dir, Some(home)) == Some(
            PathQuery { dir: home, leaf, anchor: seq!['~', '/'] },
        ),
        path_query(seq!['~', '/'] + dir + seq!['/'] + leaf, working_dir, None) is None,
{
    reveal_strlit("~/");
    assert("~/"@ =~= seq!['~', '/']);
    lemma_leaf(dir, leaf);
    let word = seq!['~', '/'] + dir + seq!['/'] + leaf;
    let path = dir + seq!['/'] + leaf;
    assert(word.skip(1).skip(1) =~= path);
    assert(path.take(path.len() - leaf.len() - 1) =~= dir);
    let q = path_query(word, working_dir, Some(home))->0;
    assert(q.anchor =~= seq!['~', '/'] + dir + seq!['/']);
    let short = seq!['~', '/'] + leaf;
    assert(short.skip(1).skip(1) =~= leaf);
}

/// Whether a candidate is an entry of the directory that is read: its name behind what is shown
/// before it, a directory as such and anything else as a file.
pub open spec fn is_entry(item: ItemView, entry: DirEntry, shown_before: Seq<char>) -> bool {
    &&& item.display == shown_before + entry.name@
    &&& entry.is_dir ==> item.kind == CompletionKind::Directory
    &&& !entry.is_dir ==> item.kind == CompletionKind::File
}

/// The candidates for a path are entries of the directory that is read whose names go on from what
/// was typed, and hidden ones only where a dot was typed.
pub proof fn candidates_are_entries(
    buffer: Seq<char>,
    working_dir: Seq<char>,
    home: Option<Seq<char>>,
    commands: Seq<Seq<char>>,
    entries: Seq<DirEntry>,
    i: int,
)
    requires
        entries.len() <= usize::MAX,
        !completes_command(buffer),
        0 <= i < completions(buffer, working_dir, home, commands, entries).len(),
    ensures
        ({
            let item = completions(buffer, working_dir, home, commands, entries)[i];
            let query = path_query(last_word(buffer), working_dir, home)->0;
            exists|k: int|
                #![trigger entries[k]]
                {
                    &&& 0 <= k < entries.len()
                    &&& is_entry(item, entries[k], query.anchor)
                    &&& query.leaf.is_prefix_of(entries[k].name@)
                    &&& entries[k].name@.len() > 0 && entries[k].name@[0] == '.'
                        ==> query.leaf.len() > 0 && query.leaf[0] == '.'
                }
        }),
{
    let query = path_query(last_word(buffer), working_dir, home)->0;
    let fitting = fitting_entries(entries, query);
    lemma_fitting_is_short(entries, query);
    lemma_offered_from(fitting, i);
    let j = choose|j: int| 0 <= j < fitting.len() && offered(fitting)[i] == #[trigger] fitting[j];
    offered_entries_continue_the_word(entries, query, j);
    let k = choose|k: int|
        0 <= k < entries.len() && #[trigger] entry_item(entries[k], query.anchor) == fitting[j]
            && entry_fits(entries[k].name@, query.leaf);
    assert(is_entry(offered(fitting)[i], entries[k], query.anchor));
}

/// Every entry whose name goes on from what was typed is a candidate, unless there are too many,
/// or it is hidden and no dot was typed.
pub proof fn entries_that_fit_are_offered(
    buffer: Seq<char>,
    working_dir: Seq<char>,
    home: Option<Seq<char>>,
    commands: Seq<Seq<char>>,
    entries: Seq<DirEntry>,
    k: int,
)
    requires
        entries.len() <= MAX_CANDIDATES,
        !completes_command(buffer),
        last_word(buffer).len() > 0,
        0 <= k < entries.len(),
        path_query(last_word(buffer), working_dir, home) matches Some(q)
            && q.leaf.is_prefix_of(entries[k].name@) && (entries[k].name@.len() > 0
            && entries[k].name@[0] == '.' ==> q.leaf.len() > 0 && q.leaf[0] == '.'),
    ensures
        ({
            let items = completions(buffer, working_dir, home, commands, entries);
            let query = path_query(last_word(buffer), working_dir, home)->0;
            exists|i: int|
                0 <= i < items.len() && is_entry(#[trigger] items[i], entries[k], query.anchor)
        }),
{
    let query = path_query(last_word(buffer), working_dir, home)->0;
    let fitting = fitting_entries(entries, query);
    lemma_fitting_is_short(entries, query);
    lemma_entry_fits(entries, query, k);
    let j = choose|j: int|
        0 <= j < fitting.len() && #[trigger] fitting[j] == entry_item(entries[k], query.anchor);
    lemma_offered_all(fitting, j);
    let i = choose|i: int| 0 <= i < offered(fitting).len() && #[trigger] offered(fitting)[i]
        == fitting[j];
    let items = completions(buffer, working_dir, home, commands, entries);
    assert(is_entry(items[i], entries[k], query.anchor));
}

/// The candidates for the first word are the commands that go on from it, and all of them where
/// there are not too many.
pub proof fn commands_are_offered_first(
    word: Seq<char>,
    working_dir: Seq<char>,
    home: Option<Seq<char>>,
    commands: Seq<Seq<char>>,
    entries: Seq<DirEntry>,
    name: Seq<char>,
)
    requires
        commands.len() <= MAX_CANDIDATES,
        word.len() > 0,
        no_space(word),
        word[0] != '.' && word[0] != '/' && word[0] != '~',
    ensures
        ({
            let items = completions(word, working_dir, home, commands, entries);
            let offer = ItemView { display: name, kind: CompletionKind::Command };
            &&& items.contains(offer) <==> commands.contains(name) && word.is_prefix_of(name)
            &&& forall|i: int|
                0 <= i < items.len() ==> (#[trigger] items[i]).kind == CompletionKind::Command
        }),
{
    last_word_is_completed(word, word);
    let fitting = fitting_commands(commands, word);
    lemma_fitting_commands(commands, word, name);
    let items = completions(word, working_dir, home, commands, entries);
    let offer = ItemView { display: name, kind: CompletionKind::Command };
    assert(items == offered(fitting));
    if items.contains(offer) {
        let i = choose|i: int| 0 <= i < items.len() && items[i] == offer;
        lemma_offered_from(fitting, i);
    }
    if fitting.contains(offer) {
        let j = choose|j: int| 0 <= j < fitting.len() && fitting[j] == offer;
        lemma_offered_all(fitting, j);
    }
    assert forall|i: int| 0 <= i < items.len() implies (#[trigger] items[i]).kind
        == CompletionKind::Command by {
        lemma_offered_from(fitting, i);
    }
}

/// Candidates come in dictionary order.
pub proof fn candidates_are_in_order(items: Seq<ItemView>, i: int, j: int)
    requires
        items.len() <= usize::MAX,
        0 <= i < j < offered(items).len(),
    ensures
        text::lex_le(offered(items)[i].display, offered(items)[j].display),
{
    let chosen = all_indices(items.len());
    let keys = display_keys(items);
    crate::sorting::sorting_permutes_into_order(chosen, keys);
    lemma_order_is_in_range(items);
}

proof fn lemma_order_is_in_range(items: Seq<ItemView>)
    requires
        items.len() <= usize::MAX,
    ensures
        ({
            let order = sorting::sorted(all_indices(items.len()), display_keys(items));
            &&& order.len() == items.len()
            &&& forall|i: int| 0 <= i < order.len() ==> (#[trigger] order[i]) < items.len()
            &&& forall|j: int|
                0 <= j < items.len() ==> #[trigger] order.contains(j as usize)
        }),
{
    broadcast use vstd::seq_lib::group_to_multiset_ensures;

    let all = all_indices(items.len());
    let order = sorting::sorted(all, display_keys(items));
    crate::sorting::sorting_permutes_into_order(all, display_keys(items));
    assert(order.len() == order.to_multiset().len());
    assert(all.len() == all.to_multiset().len());
    assert forall|i: int| 0 <= i < order.len() implies (#[trigger] order[i]) < items.len() by {
        assert(order.contains(order[i]));
        assert(order.to_multiset().count(order[i]) > 0);
        assert(all.to_multiset().count(order[i]) > 0);
        assert(all.contains(order[i]));
    }
    assert forall|j: int| 0 <= j < items.len() implies #[trigger] order.contains(j as usize) by {
        assert(all[j] == j as usize);
        assert(all.contains(j as usize));
        assert(all.to_multiset().count(j as usize) > 0);
        assert(order.to_multiset().count(j as usize) > 0);
    }
}

proof fn lemma_offered_from(items: Seq<ItemView>, i: int)
    requires
        items.len() <= usize::MAX,
        0 <= i < offered(items).len(),
    ensures
        exists|j: int| 0 <= j < items.len() && offered(items)[i] == #[trigger] items[j],
{
    lemma_order_is_in_range(items);
    let order = sorting::sorted(all_indices(items.len()), display_keys(items));
    assert(order[i] < items.len());
    assert(offered(items)[i] == items[order[i] as int]);
}

proof fn lemma_offered_all(items: Seq<ItemView>, j: int)
    requires
        items.len() <= MAX_CANDIDATES,
        0 <= j < items.len(),
    ensures
        exists|i: int| 0 <= i < offered(items).len() && #[trigger] offered(items)[i] == items[j],
{
    lemma_order_is_in_range(items);
    let order = sorting::sorted(all_indices(items.len()), display_keys(items));
    assert(order.contains(j as usize));
    let i = choose|i: int| 0 <= i < order.len() && order[i] == j as usize;
    assert(offered(items)[i] == items[j]);
}

proof fn lemma_fitting_is_short(entries: Seq<DirEntry>, query: PathQuery)
    ensures
        fitting_entries(entries, query).len() <= entries.len(),
    decreases entries.len(),
{
    if entries.len() > 0 {
        lemma_fitting_is_short(entries.drop_last(), query);
    }
}

proof fn lemma_entry_fits(entries: Seq<DirEntry>, query: PathQuery, k: int)
    requires
        0 <= k < entries.len(),
        entry_fits(entries[k].name@, query.leaf),
    ensures
        exists|j: int|
            0 <= j < fitting_entries(entries, query).len() && #[trigger] fitting_entries(
                entries,
                query,
            )[j] == entry_item(entries[k], query.anchor),
    decreases entries.len(),
{
    let all = fitting_entries(entries, query);
    let front = entries.drop_last();
    let rest = fitting_entries(front, query);
    if k < front.len() {
        lemma_entry_fits(front, query, k);
        let j = choose|j: int|
            0 <= j < rest.len() && #[trigger] rest[j] == entry_item(front[k], query.anchor);
        assert(all[j] == entry_item(entries[k], query.anchor));
    } else {
        assert(all[rest.len() as int] == entry_item(entries[k], query.anchor));
    }
}

proof fn lemma_fitting_commands(commands: Seq<Seq<char>>, word: Seq<char>, name: Seq<char>)
    ensures
        ({
            let fitting = fitting_commands(commands, word);
            let offer = ItemView { display: name, kind: CompletionKind::Command };
            &&& fitting.len() <= commands.len()
            &&& fitting.contains(offer) <==> commands.contains(name) && word.is_prefix_of(name)
            &&& forall|j: int|
                0 <= j < fitting.len() ==> (#[trigger] fitting[j]).kind == CompletionKind::Command
        }),
    decreases commands.len(),
{
    let fitting = fitting_commands(commands, word);
    let offer = ItemView { display: name, kind: CompletionKind::Command };
    if commands.len() > 0 {
        let front = commands.drop_last();
        let rest = fitting_commands(front, word);
        lemma_fitting_commands(front, word, name);
        if rest.contains(offer) {
            let j = choose|j: int| 0 <= j < rest.len() && rest[j] == offer;
            assert(fitting[j] == offer);
        }
        if front.contains(name) {
            let j = choose|j: int| 0 <= j < front.len() && front[j] == name;
            assert(commands[j] == name);
        }
        if commands.last() == name {
            assert(commands[commands.len() - 1] == name);
            if word.is_prefix_of(name) {
                assert(fitting[rest.len() as int] == offer);
            }
        }
        if fitting.contains(offer) && !rest.contains(offer) {
            let j = choose|j: int| 0 <= j < fitting.len() && fitting[j] == offer;
            if j < rest.len() {
                assert(rest[j] == offer);
            }
        }
        if commands.contains(name) && commands.last() != name {
            let j = choose|j: int| 0 <= j < commands.len() && commands[j] == name;
            assert(front[j] == name);
        }
    }
}

/// What is typed is kept, in order, while there is room for it; what does not fit changes nothing.
pub proof fn typed_text_is_kept(text: Seq<char>, more: Seq<char>)
    ensures
        editing::byte_len(text + more) <= MAX_BUFFER_LEN ==> buffered(text, more) == text + more,
        editing::byte_len(text + more) > MAX_BUFFER_LEN ==> buffered(text, more) == text,
{
    editing::lemma_encode_concat(text, more);
}

proof fn lemma_whole_word(buffer: Seq<char>)
    ensures
        last_word(buffer).len() <= buffer.len(),
        last_word(buffer) == buffer <==> no_space(buffer),
    decreases buffer.len(),
{
    if buffer.len() == 0 {
        assert(last_word(buffer) =~= buffer);
    } else {
        let front = buffer.drop_last();
        lemma_whole_word(front);
        if buffer.last() == ' ' {
            assert(!no_space(buffer)) by {
                assert(buffer[buffer.len() - 1] == ' ');
            }
        } else {
            assert(front.push(buffer.last()) =~= buffer);
            if last_word(buffer) == buffer {
                assert(last_word(buffer).drop_last() =~= last_word(front));
                assert(last_word(front) =~= front);
                assert forall|i: int| 0 <= i < buffer.len() implies #[trigger] buffer[i] != ' ' by {
                    if i < front.len() {
                        assert(front[i] == buffer[i]);
                    }
                }
            }
            if no_space(buffer) {
                assert forall|i: int| 0 <= i < front.len() implies #[trigger] front[i] != ' ' by {
                    assert(front[i] == buffer[i]);
                }
            }
        }
    }
}

/// The first word is a command, unless it begins as a path does: with a dot, a slash or a tilde.
/// Anything behind a blank is none.
pub proof fn first_words_are_commands(buffer: Seq<char>)
    ensures
        completes_command(buffer) <==> no_space(buffer) && !(buffer.len() > 0 && (buffer[0] == '.'
            || buffer[0] == '/' || buffer[0] == '~')),
{
    lemma_whole_word(buffer);
}

} // verus!
