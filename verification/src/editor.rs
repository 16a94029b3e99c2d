//! Editors that a directory can be opened in.

use vstd::prelude::*;

use crate::text;
use crate::text::{chars_of, copy_of, text_eq};

verus! {

/// Categories for sorting editors in the picker modal.
#[derive(Debug, Clone, Copy, PartialEq, Eq, PartialOrd, Ord, Structural)]
pub enum EditorCategory {
    Generic,
    JetBrains,
    Terminal,
}

impl EditorCategory {
    pub open spec fn rank(self) -> int {
        match self {
            EditorCategory::Generic => 0,
            EditorCategory::JetBrains => 1,
            EditorCategory::Terminal => 2,
        }
    }
}

/// A detected editor on the system.
#[derive(Debug, Clone)]
pub struct DetectedEditor {
    pub name: String,
    pub binary: String,
    pub category: EditorCategory,
}

/// An editor that is known: its name, its program and its category.
pub struct KnownEditor {
    pub name: &'static str,
    pub binary: &'static str,
    pub category: EditorCategory,
}

#[verifier::ext_equal]
pub ghost struct EditorView {
    pub name: Seq<char>,
    pub binary: Seq<char>,
    pub category: EditorCategory,
}

impl View for DetectedEditor {
    type V = EditorView;

    open spec fn view(&self) -> EditorView {
        EditorView { name: self.name@, binary: self.binary@, category: self.category }
    }
}

impl View for KnownEditor {
    type V = EditorView;

    open spec fn view(&self) -> EditorView {
        EditorView { name: self.name@, binary: self.binary@, category: self.category }
    }
}

pub open spec fn known_view(editors: Seq<KnownEditor>) -> Seq<EditorView> {
    editors.map_values(|e: KnownEditor| e@)
}

pub open spec fn detected_view(editors: Seq<DetectedEditor>) -> Seq<EditorView> {
    editors.map_values(|e: DetectedEditor| e@)
}

/// Editors of the same category stand together, in the order of categories.
pub open spec fn by_category(editors: Seq<EditorView>) -> bool {
    forall|i: int, j: int|
        0 <= i < j < editors.len() ==> (#[trigger] editors[i]).category.rank() <= (
        #[trigger] editors[j]).category.rank()
}

pub open spec fn entry(name: Seq<char>, binary: Seq<char>, category: EditorCategory) -> EditorView {
    EditorView { name, binary, category }
}

/// The editors to look for, ordered by category.
pub open spec fn all_known() -> Seq<EditorView> {
    seq![
        entry("VS Code"@, "code"@, EditorCategory::Generic),
        entry("Cursor"@, "cursor"@, EditorCategory::Generic),
        entry("Zed"@, "zed"@, EditorCategory::Generic),
        entry("Sublime Text"@, "subl"@, EditorCategory::Generic),
        entry("IntelliJ IDEA"@, "idea"@, EditorCategory::JetBrains),
        entry("WebStorm"@, "webstorm"@, EditorCategory::JetBrains),
        entry("PyCharm"@, "pycharm"@, EditorCategory::JetBrains),
        entry("GoLand"@, "goland"@, EditorCategory::JetBrains),
        entry("RustRover"@, "rustrover"@, EditorCategory::JetBrains),
        entry("CLion"@, "clion"@, EditorCategory::JetBrains),
        entry("PHPStorm"@, "phpstorm"@, EditorCategory::JetBrains),
        entry("Rider"@, "rider"@, EditorCategory::JetBrains),
        entry("Fleet"@, "fleet"@, EditorCategory::JetBrains),
        entry("Neovim"@, "nvim"@, EditorCategory::Terminal),
        entry("Vim"@, "vim"@, EditorCategory::Terminal),
        entry("Emacs"@, "emacs"@, EditorCategory::Terminal),
        entry("Helix"@, "hx"@, EditorCategory::Terminal),
    ]
}

/// The editors to look for, ordered by category.
pub fn known_editors() -> (known: Vec<KnownEditor>)
    ensures
        known_view(known@) == all_known(),
        by_category(known_view(known@)),
{
    let g = EditorCategory::Generic;
    let j = EditorCategory::JetBrains;
    let t = EditorCategory::Terminal;
    let known = vec![
        KnownEditor { name: "VS Code", binary: "code", category: g },
        KnownEditor { name: "Cursor", binary: "cursor", category: g },
        KnownEditor { name: "Zed", binary: "zed", category: g },
        KnownEditor { name: "Sublime Text", binary: "subl", category: g },
        KnownEditor { name: "IntelliJ IDEA", binary: "idea", category: j },
        KnownEditor { name: "WebStorm", binary: "webstorm", category: j },
        KnownEditor { name: "PyCharm", binary: "pycharm", category: j },
        KnownEditor { name: "GoLand", binary: "goland", category: j },
        KnownEditor { name: "RustRover", binary: "rustrover", category: j },
        KnownEditor { name: "CLion", binary: "clion", category: j },
        KnownEditor { name: "PHPStorm", binary: "phpstorm", category: j },
        KnownEditor { name: "Rider", binary: "rider", category: j },
        KnownEditor { name: "Fleet", binary: "fleet", category: j },
        KnownEditor { name: "Neovim", binary: "nvim", category: t },
        KnownEditor { name: "Vim", binary: "vim", category: t },
        KnownEditor { name: "Emacs", binary: "emacs", category: t },
        KnownEditor { name: "Helix", binary: "hx", category: t },
    ];
    assert(known_view(known@) =~= all_known());
    known
}

/// The editors of which `found` says so.
pub open spec fn those_found(known: Seq<EditorView>, found: Seq<bool>) -> Seq<EditorView>
    decreases known.len(),
{
    if known.len() == 0 {
        known
    } else {
        let rest = those_found(known.drop_last(), found);
        if found[known.len() - 1] {
            rest.push(known.last())
        } else {
            rest
        }
    }
}

proof fn lemma_found_keeps_order(known: Seq<EditorView>, found: Seq<bool>)
    requires
        by_category(known),
    ensures
        by_category(those_found(known, found)),
        forall|i: int|
            0 <= i < those_found(known, found).len() ==> known.contains(
                #[trigger] those_found(known, found)[i],
            ),
    decreases known.len(),
{
    if known.len() > 0 {
        let front = known.drop_last();
        lemma_found_keeps_order(front, found);
        let rest = those_found(front, found);
        let all = those_found(known, found);
        assert forall|i: int| 0 <= i < all.len() implies known.contains(#[trigger] all[i]) by {
            if i < rest.len() {
                assert(front.contains(rest[i]));
                let k = choose|k: int| 0 <= k < front.len() && front[k] == rest[i];
                assert(known[k] == all[i]);
            } else {
                assert(known[known.len() - 1] == all[i]);
            }
        }
        assert forall|i: int, j: int| 0 <= i < j < all.len() implies (
        #[trigger] all[i]).category.rank() <= (#[trigger] all[j]).category.rank() by {
            if j < rest.len() {
                assert(rest[i].category.rank() <= rest[j].category.rank());
            } else {
                assert(front.contains(rest[i]));
                let k = choose|k: int| 0 <= k < front.len() && front[k] == rest[i];
                assert(known[k].category.rank() <= known[known.len() - 1].category.rank());
            }
        }
    }
}

/// The installed editors among the known ones: `found` says of each whether its program was
/// found. They come sorted by category (Generic, JetBrains, Terminal).
pub fn detect_installed_editors(found: &Vec<bool>) -> (editors: Vec<DetectedEditor>)
    requires
        found@.len() == all_known().len(),
    ensures
        detected_view(editors@) == those_found(all_known(), found@),
        by_category(detected_view(editors@)),
{
    let known = known_editors();
    let ghost views = known_view(known@);
    let mut editors: Vec<DetectedEditor> = Vec::new();
    let mut i: usize = 0;
    assert(detected_view(editors@) =~= those_found(views.take(0), found@));
    while i < known.len()
        invariant
            i <= known@.len(),
            views == known_view(known@),
            found@.len() == known@.len(),
            detected_view(editors@) == those_found(views.take(i as int), found@),
        decreases known@.len() - i,
    {
        let ghost before = detected_view(editors@);
        assert(views.take(i + 1).drop_last() =~= views.take(i as int));
        if found[i] {
            let e = DetectedEditor {
                name: copy_of(known[i].name),
                binary: copy_of(known[i].binary),
                category: known[i].category,
            };
            editors.push(e);
            assert(views[i as int] == e@);
            assert(detected_view(editors@) =~= before.push(e@));
        }
        i += 1;
    }
    proof {
        assert(views.take(i as int) =~= views);
        lemma_found_keeps_order(views, found@);
    }
    editors
}

/// Look up a detected editor by its binary name.
pub fn find_editor_by_binary<'a>(editors: &'a Vec<DetectedEditor>, binary: &str) -> (found: Option<
    &'a DetectedEditor,
>)
    ensures
        match found {
            Some(e) => exists|i: int|
                0 <= i < editors@.len() && *e == #[trigger] editors@[i] && e.binary@ == binary@
                    && forall|k: int| 0 <= k < i ==> (#[trigger] editors@[k]).binary@ != binary@,
            None => forall|k: int|
                0 <= k < editors@.len() ==> (#[trigger] editors@[k]).binary@ != binary@,
        },
{
    let mut i: usize = 0;
    while i < editors.len()
        invariant
            i <= editors@.len(),
            forall|k: int| 0 <= k < i ==> (#[trigger] editors@[k]).binary@ != binary@,
        decreases editors@.len() - i,
    {
        if text_eq(editors[i].binary.as_str(), binary) {
            return Some(&editors[i]);
        }
        i += 1;
    }
    None
}

// ── Opening ────────────────────────────────────────────────────────

/// A program and its arguments.
#[derive(Debug, Clone)]
pub struct Launch {
    pub program: String,
    pub args: Vec<String>,
}

#[verifier::ext_equal]
pub ghost struct LaunchView {
    pub program: Seq<char>,
    pub args: Seq<Seq<char>>,
}

impl View for Launch {
    type V = LaunchView;

    open spec fn view(&self) -> LaunchView {
        LaunchView { program: self.program@, args: text::strings_view(self.args@) }
    }
}

pub open spec fn launches_view(launches: Seq<Launch>) -> Seq<LaunchView> {
    launches.map_values(|l: Launch| l@)
}

/// A text with every single quote closed, escaped and opened again.
pub open spec fn quotes_escaped(s: Seq<char>) -> Seq<char>
    decreases s.len(),
{
    if s.len() == 0 {
        s
    } else {
        quotes_escaped(s.drop_last()) + if s.last() == '\'' {
            seq!['\'', '\\', '\'', '\'']
        } else {
            seq![s.last()]
        }
    }
}

/// A text in single quotes for a shell.
pub open spec fn escaped(s: Seq<char>) -> Seq<char> {
    seq!['\''] + quotes_escaped(s) + seq!['\'']
}

/// Simple shell escaping for paths (wraps in single quotes, escapes inner quotes).
pub fn shell_escape(s: &str) -> (out: String)
    ensures
        out@ == escaped(s@),
{
    let chars = chars_of(s);
    let mut out = String::new();
    out.push('\'');
    let mut i: usize = 0;
    assert(s@.take(0) =~= Seq::<char>::empty());
    assert(out@ =~= seq!['\''] + quotes_escaped(s@.take(0)));
    while i < chars.len()
        invariant
            i <= chars@.len(),
            chars@ == s@,
            out@ == seq!['\''] + quotes_escaped(s@.take(i as int)),
        decreases chars@.len() - i,
    {
        let c = chars[i];
        assert(s@.take(i + 1).drop_last() =~= s@.take(i as int));
        if c == '\'' {
            out.push('\'');
            out.push('\\');
            out.push('\'');
            out.push('\'');
        } else {
            out.push(c);
        }
        i += 1;
        assert(out@ =~= seq!['\''] + quotes_escaped(s@.take(i as int)));
    }
    out.push('\'');
    assert(s@.take(i as int) =~= s@);
    assert(out@ =~= escaped(s@));
    out
}

/// How a shell reads a word: inside single quotes every character stands for itself, and
/// outside a backslash makes the next one do so.
pub open spec fn shell_reads(word: Seq<char>, quoted: bool) -> Seq<char>
    decreases word.len(),
{
    if word.len() == 0 {
        Seq::empty()
    } else if word[0] == '\'' {
        shell_reads(word.skip(1), !quoted)
    } else if !quoted && word[0] == '\\' && word.len() >= 2 {
        seq![word[1]] + shell_reads(word.skip(2), false)
    } else {
        seq![word[0]] + shell_reads(word.skip(1), quoted)
    }
}

proof fn lemma_reads_escaped(s: Seq<char>, rest: Seq<char>)
    ensures
        shell_reads(quotes_escaped(s) + rest, true) == s + shell_reads(rest, true),
    decreases s.len(),
{
    if s.len() == 0 {
        assert(quotes_escaped(s) + rest =~= rest);
        assert(s + shell_reads(rest, true) =~= shell_reads(rest, true));
    } else {
        let front = s.drop_last();
        let c = s.last();
        let last = if c == '\'' {
            seq!['\'', '\\', '\'', '\'']
        } else {
            seq![c]
        };
        lemma_reads_escaped(front, last + rest);
        assert(quotes_escaped(s) + rest =~= quotes_escaped(front) + (last + rest));
        let word = last + rest;
        assert(shell_reads(word, true) =~= seq![c] + shell_reads(rest, true)) by {
            if c == '\'' {
                let a = word.skip(1);
                assert(word[0] == '\'');
                assert(a[0] == '\\' && a[1] == '\'');
                let b = a.skip(2);
                assert(b[0] == '\'');
                assert(b.skip(1) =~= rest);
                assert(shell_reads(b, false) == shell_reads(rest, true));
                assert(shell_reads(a, false) == seq!['\''] + shell_reads(b, false));
                assert(shell_reads(word, true) == shell_reads(a, false));
            } else {
                assert(word[0] == c);
                assert(word.skip(1) =~= rest);
            }
        }
        assert(front + (seq![c] + shell_reads(rest, true)) =~= s + shell_reads(rest, true));
    }
}

/// A shell reads an escaped text as the text itself.
pub proof fn shell_reads_what_was_escaped(s: Seq<char>)
    ensures
        shell_reads(escaped(s), false) == s,
{
    let word = escaped(s);
    let end = seq!['\''];
    assert(word.skip(1) =~= quotes_escaped(s) + end);
    lemma_reads_escaped(s, end);
    assert(end.skip(1) =~= Seq::<char>::empty());
    assert(shell_reads(end.skip(1), false) =~= Seq::<char>::empty());
    assert(shell_reads(end, true) =~= Seq::<char>::empty());
    assert(s + shell_reads(end, true) =~= s);
}

/// Ways to open a directory in an editor, tried until one works. An editor for the terminal
/// goes into a new terminal window.
pub open spec fn ways_to_open(editor: EditorView, path: Seq<char>, macos: bool) -> Seq<LaunchView> {
    if editor.category != EditorCategory::Terminal {
        seq![LaunchView { program: editor.binary, args: seq![path] }]
    } else if macos {
        seq![
            LaunchView {
                program: "osascript"@,
                args: seq![
                    "-e"@,
                    "tell app \"Terminal\" to do script \"cd "@ + escaped(path) + " && "@
                        + editor.binary + " .\""@,
                ],
            },
        ]
    } else {
        seq![
            LaunchView {
                program: "x-terminal-emulator"@,
                args: seq!["-e"@, editor.binary, path],
            },
            LaunchView { program: "gnome-terminal"@, args: seq!["--"@, editor.binary, path] },
            LaunchView { program: "konsole"@, args: seq!["-e"@, editor.binary, path] },
            LaunchView { program: "xfce4-terminal"@, args: seq!["-e"@, editor.binary, path] },
        ]
    }
}

fn in_terminal(terminal: &str, option: &str, binary: &str, path: &str) -> (l: Launch)
    ensures
        l@ == (LaunchView { program: terminal@, args: seq![option@, binary@, path@] }),
{
    let args = vec![copy_of(option), copy_of(binary), copy_of(path)];
    assert(text::strings_view(args@) =~= seq![option@, binary@, path@]);
    Launch { program: copy_of(terminal), args }
}

/// Ways to open a directory in an editor, tried until one works.
pub fn open_in_editor(editor: &DetectedEditor, path: &str, macos: bool) -> (ways: Vec<Launch>)
    ensures
        launches_view(ways@) == ways_to_open(editor@, path@, macos),
{
    let binary = editor.binary.as_str();
    let terminal = match editor.category {
        EditorCategory::Terminal => true,
        _ => false,
    };
    let ways = if !terminal {
        let args = vec![copy_of(path)];
        assert(text::strings_view(args@) =~= seq![path@]);
        vec![Launch { program: copy_of(binary), args }]
    } else if macos {
        let mut script = copy_of("tell app \"Terminal\" to do script \"cd ");
        script.push_str(shell_escape(path).as_str());
        script.push_str(" && ");
        script.push_str(binary);
        script.push_str(" .\"");
        let args = vec![copy_of("-e"), script];
        assert(text::strings_view(args@) =~= seq!["-e"@, script@]);
        vec![Launch { program: copy_of("osascript"), args }]
    } else {
        vec![
            in_terminal("x-terminal-emulator", "-e", binary, path),
            in_terminal("gnome-terminal", "--", binary, path),
            in_terminal("konsole", "-e", binary, path),
            in_terminal("xfce4-terminal", "-e", binary, path),
        ]
    };
    assert(launches_view(ways@) =~= ways_to_open(editor@, path@, macos));
    ways
}

/// Those editors are offered that were found, in the order of the list.
pub proof fn found_editors_are_offered(
    known: Seq<EditorView>,
    found: Seq<bool>,
    next: EditorView,
    there: bool,
)
    requires
        known.len() == found.len(),
    ensures
        there ==> those_found(known.push(next), found.push(there)) == those_found(
            known,
            found,
        ).push(next),
        !there ==> those_found(known.push(next), found.push(there)) == those_found(known, found),
        those_found(Seq::empty(), found).len() == 0,
{
    assert(known.push(next).drop_last() =~= known);
    lemma_found_prefix(known, found, there);
}

proof fn lemma_found_prefix(known: Seq<EditorView>, found: Seq<bool>, there: bool)
    requires
        known.len() <= found.len(),
    ensures
        those_found(known, found.push(there)) == those_found(known, found),
    decreases known.len(),
{
    if known.len() > 0 {
        lemma_found_prefix(known.drop_last(), found, there);
    }
}

/// An editor with a window of its own is started with the path alone. One that runs in a
/// terminal is started in each terminal that may be there, with the path as its own argument,
/// the last one.
pub proof fn editors_are_started_with_the_path(editor: EditorView, path: Seq<char>, i: int)
    requires
        0 <= i < ways_to_open(editor, path, false).len(),
    ensures
        ({
            let way = ways_to_open(editor, path, false)[i];
            &&& way.args.last() == path
            &&& editor.category != EditorCategory::Terminal ==> {
                &&& way.program == editor.binary
                &&& way.args.len() == 1
                &&& ways_to_open(editor, path, true) == ways_to_open(editor, path, false)
                &&& ways_to_open(editor, path, false).len() == 1
            }
            &&& editor.category == EditorCategory::Terminal ==> {
                &&& way.args.len() == 3
                &&& way.args[1] == editor.binary
            }
        }),
{
}

/// On a Mac the script that the terminal is told to run goes to the directory, whatever its
/// name holds, and starts the editor there.
pub proof fn scripts_go_to_the_directory(editor: EditorView, path: Seq<char>, word: Seq<char>)
    requires
        editor.category == EditorCategory::Terminal,
        shell_reads(word, false) == path,
        word == escaped(path),
    ensures
        ({
            let ways = ways_to_open(editor, path, true);
            &&& ways.len() == 1
            &&& ways[0].args.len() == 2
            &&& ways[0].args[1] == "tell app \"Terminal\" to do script \"cd "@ + word + " && "@
                + editor.binary + " .\""@
        }),
{
}

/// Editors with a window come first, then those of one family, then those for the terminal.
pub proof fn categories_stand_in_order()
    ensures
        EditorCategory::Generic.rank() < EditorCategory::JetBrains.rank(),
        EditorCategory::JetBrains.rank() < EditorCategory::Terminal.rank(),
        by_category(all_known()),
{
}

} // verus!
