//! The command line: what can be said on it, and what it means.

use vstd::prelude::*;

use crate::overview;
use crate::text;
use crate::text::{chars_of, copy_of, text_eq};

verus! {

// ── Hub names ──────────────────────────────────────────────────────

pub open spec fn is_lower(c: char) -> bool {
    'a' <= c <= 'z'
}

/// A character that may stand in a hub's name.
pub open spec fn is_snake(c: char) -> bool {
    is_lower(c) || '0' <= c <= '9' || c == '_'
}

/// Whether two underscores stand side by side.
pub open spec fn doubled_underscore(name: Seq<char>) -> bool {
    exists|i: int| 0 <= i < name.len() - 1 && #[trigger] name[i] == '_' && name[i + 1] == '_'
}

/// The first character of a name, behind its first, that may not stand in it.
pub open spec fn first_misfit(name: Seq<char>, i: int) -> Option<char>
    decreases name.len() - i,
{
    if i >= name.len() {
        None
    } else if !is_snake(name[i]) {
        Some(name[i])
    } else {
        first_misfit(name, i + 1)
    }
}

/// What is wrong with a hub's name.
pub open spec fn name_fault(name: Seq<char>) -> Option<Seq<char>> {
    if name.len() == 0 {
        Some("hub name cannot be empty"@)
    } else if !is_lower(name[0]) {
        Some("hub name must start with a lowercase letter, got '"@ + seq![name[0]] + "'"@)
    } else if name.last() == '_' {
        Some("hub name must not end with an underscore"@)
    } else if doubled_underscore(name) {
        Some("hub name must not contain consecutive underscores"@)
    } else {
        match first_misfit(name, 1) {
            Some(c) => Some(
                "hub name must be snake_case (lowercase, digits, underscores), found '"@ + seq![c]
                    + "'"@,
            ),
            None => None,
        }
    }
}

fn quoted(text: &str, c: char) -> (s: String)
    ensures
        s@ == text@ + seq![c] + "'"@,
{
    let mut s = copy_of(text);
    s.push(c);
    s.push_str("'");
    assert(s@ =~= text@ + seq![c] + "'"@);
    s
}

fn has_doubled_underscore(name: &Vec<char>) -> (yes: bool)
    ensures
        yes == doubled_underscore(name@),
{
    let mut i: usize = 1;
    while i < name.len()
        invariant
            1 <= i,
            forall|k: int| 0 <= k < i - 1 && k < name@.len() - 1 ==> !(#[trigger] name@[k] == '_' && name@[k + 1] == '_'),
        decreases name@.len() - i,
    {
        if name[i - 1] == '_' && name[i] == '_' {
            assert(name@[i - 1] == '_');
            return true;
        }
        i += 1;
    }
    false
}

/// Validate a hub name follows snake_case: starts with a lowercase ASCII letter,
/// followed by zero or more lowercase ASCII letters, digits, or underscores.
pub fn validate_hub_name(name: &str) -> (verdict: Result<(), String>)
    ensures
        match name_fault(name@) {
            Some(fault) => verdict matches Err(e) && e@ == fault,
            None => verdict is Ok,
        },
{
    let chars = chars_of(name);
    if chars.len() == 0 {
        return Err(copy_of("hub name cannot be empty"));
    }
    let first = chars[0];
    if !('a' <= first && first <= 'z') {
        return Err(quoted("hub name must start with a lowercase letter, got '", first));
    }
    if chars[chars.len() - 1] == '_' {
        return Err(copy_of("hub name must not end with an underscore"));
    }
    if has_doubled_underscore(&chars) {
        return Err(copy_of("hub name must not contain consecutive underscores"));
    }
    let mut i: usize = 1;
    while i < chars.len()
        invariant
            1 <= i <= chars@.len(),
            chars@ == name@,
            first_misfit(name@, 1) == first_misfit(name@, i as int),
            name@.len() > 0 && is_lower(name@[0]) && name@.last() != '_' && !doubled_underscore(
                name@,
            ),
        decreases chars@.len() - i,
    {
        let c = chars[i];
        let snake = ('a' <= c && c <= 'z') || ('0' <= c && c <= '9') || c == '_';
        if !snake {
            return Err(
                quoted("hub name must be snake_case (lowercase, digits, underscores), found '", c),
            );
        }
        i += 1;
    }
    Ok(())
}

proof fn lemma_no_misfit(name: Seq<char>, i: int, k: int)
    requires
        0 <= i <= k < name.len(),
        first_misfit(name, i) is None,
    ensures
        is_snake(name[k]),
    decreases k - i,
{
    if i < k {
        lemma_no_misfit(name, i + 1, k);
    }
}

/// A valid name starts with a lowercase letter and holds nothing but lowercase letters, digits
/// and underscores.
pub proof fn valid_names_are_snake_case(name: Seq<char>, k: int)
    requires
        name_fault(name) is None,
        0 <= k < name.len(),
    ensures
        is_lower(name[0]),
        is_snake(name[k]),
        name[name.len() - 1] != '_',
{
    if k > 0 {
        lemma_no_misfit(name, 1, k);
    }
}

// ── What can be said ───────────────────────────────────────────────

/// An argument that a command takes: a flag, an option with a value, or a word of its own.
#[derive(Debug, Clone, Copy)]
pub struct Rule {
    pub id: &'static str,
    pub short: Option<char>,
    pub long: Option<&'static str>,
    /// What stands for its value in help texts.
    pub label: Option<&'static str>,
    pub help: &'static str,
    /// How many values go with it, at least and at most.
    pub least: usize,
    pub most: usize,
    pub required: bool,
    /// The value where none is given.
    pub missing: Option<&'static str>,
}

#[verifier::ext_equal]
pub ghost struct RuleView {
    pub id: Seq<char>,
    pub short: Option<char>,
    pub long: Option<Seq<char>>,
    pub label: Option<Seq<char>>,
    pub help: Seq<char>,
    pub least: int,
    pub most: int,
    pub required: bool,
    pub missing: Option<Seq<char>>,
}

pub open spec fn static_text(s: Option<&'static str>) -> Option<Seq<char>> {
    match s {
        Some(t) => Some(t@),
        None => None,
    }
}

impl View for Rule {
    type V = RuleView;

    open spec fn view(&self) -> RuleView {
        RuleView {
            id: self.id@,
            short: self.short,
            long: static_text(self.long),
            label: static_text(self.label),
            help: self.help@,
            least: self.least as int,
            most: self.most as int,
            required: self.required,
            missing: static_text(self.missing),
        }
    }
}

impl RuleView {
    /// Whether it stands for itself, without a dash.
    pub open spec fn is_word(self) -> bool {
        self.short is None && self.long is None
    }

    /// Whether it is of a form that the parser takes.
    pub open spec fn sound(self) -> bool {
        &&& self.id.len() > 0
        &&& self.id != "help"@ && self.id != "version"@
        &&& self.long != Some("help"@) && self.long != Some("version"@)
        &&& self.long matches Some(l) ==> l.len() > 0 && l[0] != '-'
        &&& self.short != Some('h') && self.short != Some('V') && self.short != Some('-')
        &&& 0 <= self.least <= self.most <= 1
        &&& self.is_word() ==> self.least == 1
        &&& self.most == 0 ==> !self.required && self.label is None
        &&& self.missing is Some ==> self.least == 0 && self.most == 1
    }

    /// Whether two rules of one command can be told apart.
    pub open spec fn apart(self, other: RuleView) -> bool {
        &&& self.id != other.id
        &&& self.short is Some ==> self.short != other.short
        &&& self.long is Some ==> self.long != other.long
        &&& !(self.is_word() && other.is_word())
    }
}

/// A part of what can be said: a rule of the program or of a command below it, or a command, or
/// what a command is called and shows of itself. The path is that of the command it belongs to;
/// it is empty for the program itself.
#[verifier::ext_equal]
pub ghost enum Entry {
    Takes { path: Seq<Seq<char>>, rule: RuleView },
    Verb { path: Seq<Seq<char>>, name: Seq<char> },
    Intro { path: Seq<Seq<char>>, intro: Intro },
}

/// What a command is called and shows of itself.
#[verifier::ext_equal]
pub ghost struct Intro {
    pub name: Seq<char>,
    pub about: Seq<char>,
    pub version: Option<Seq<char>>,
    /// The command cannot stand alone: one of those below it has to follow.
    pub strict: bool,
}

impl Entry {
    /// The same, one level further down.
    pub open spec fn below(self, name: Seq<char>) -> Entry {
        match self {
            Entry::Takes { path, rule } => Entry::Takes { path: seq![name] + path, rule },
            Entry::Verb { path, name: verb } => Entry::Verb { path: seq![name] + path, name: verb },
            Entry::Intro { path, intro } => Entry::Intro { path: seq![name] + path, intro },
        }
    }
}

/// Whether a rule can be told apart from those that a command has already.
pub open spec fn rule_fits(grammar: Seq<Entry>, rule: RuleView) -> bool {
    forall|k: int|
        0 <= k < grammar.len() ==> ((#[trigger] grammar[k]) matches Entry::Takes { path, rule: other }
            ==> path.len() == 0 ==> rule.apart(other))
}

/// Whether a command's name is still free below a command.
pub open spec fn verb_fits(grammar: Seq<Entry>, verb: Seq<char>) -> bool {
    forall|k: int|
        0 <= k < grammar.len() ==> ((#[trigger] grammar[k]) matches Entry::Verb { path, name }
            ==> path.len() == 0 ==> name != verb)
}

/// Whether a command is called by this name.
pub open spec fn is_called(grammar: Seq<Entry>, name: Seq<char>) -> bool {
    &&& grammar.len() > 0
    &&& grammar[0] matches Entry::Intro { path, intro } && path.len() == 0 && intro.name == name
}

/// What was said on one level of the command line.
#[verifier::ext_equal]
pub ghost struct LevelView {
    /// The flags that were given.
    pub flags: Set<Seq<char>>,
    /// The values that were given, by the ids of their rules.
    pub values: Map<Seq<char>, Seq<char>>,
    /// The command that follows.
    pub verb: Option<Seq<char>>,
}

/// A command line parser holds rules.
#[verifier::external_type_specification]
#[verifier::external_body]
pub struct ExCommand(clap::Command);

/// What a parser found holds flags and values.
#[verifier::external_type_specification]
#[verifier::external_body]
pub struct ExArgMatches(clap::ArgMatches);

/// What a parser accepts.
pub uninterp spec fn grammar_of(command: clap::Command) -> Seq<Entry>;

/// What a parser found, level by level.
pub uninterp spec fn levels_of(matches: clap::ArgMatches) -> Seq<LevelView>;

/// What is shown where a command line is rejected, or where it asks for help or a version.
#[verifier::ext_equal]
pub ghost struct RefusalView {
    pub text: Seq<char>,
    pub to_stderr: bool,
}

/// What `clap` makes of a command line by a grammar.
pub uninterp spec fn arguments_matched(grammar: Seq<Entry>, args: Seq<Seq<char>>) -> Result<
    Seq<LevelView>,
    RefusalView,
>;

pub open spec fn intro(
    name: Seq<char>,
    about: Seq<char>,
    version: Option<Seq<char>>,
    strict: bool,
) -> Entry {
    Entry::Intro { path: Seq::empty(), intro: Intro { name, about, version, strict } }
}

/// `clap::Command::new` makes a parser without any rule. Help and version texts go along, and
/// whether a command below has to follow.
#[verifier::external_body]
fn new_parser(name: &'static str, about: &'static str, version: Option<&'static str>, strict: bool) -> (
    command: clap::Command)
    requires
        name@.len() > 0,
    ensures
        grammar_of(command) == seq![intro(name@, about@, static_text(version), strict)],
{
    clap::Command::new(name).about(about).version(version).subcommand_required(strict)
}

/// `clap::Command::arg` adds a rule. With no value it is a flag, with one it takes a value; by
/// its names it is an option, and without any a word of its own.
#[verifier::external_body]
fn with_rule(command: clap::Command, rule: Rule) -> (more: clap::Command)
    requires
        rule@.sound(),
        rule_fits(grammar_of(command), rule@),
    ensures
        grammar_of(more) == grammar_of(command).push(
            Entry::Takes { path: Seq::empty(), rule: rule@ },
        ),
{
    let named = clap::Arg::new(rule.id).short(rule.short).long(rule.long).help(rule.help);
    let sized = named.num_args(rule.least..=rule.most).required(rule.required);
    command.arg(sized.default_missing_values(rule.missing).value_names(rule.label))
}

/// `clap::Command::subcommand` puts a command below another, under its own name.
#[verifier::external_body]
fn with_verb(command: clap::Command, name: &'static str, verb: clap::Command) -> (more:
    clap::Command)
    requires
        name@.len() > 0,
        name@ != "help"@,
        is_called(grammar_of(verb), name@),
        verb_fits(grammar_of(command), name@),
    ensures
        grammar_of(more) == grammar_of(command).push(
            Entry::Verb { path: Seq::empty(), name: name@ },
        ) + grammar_of(verb).map_values(|e: Entry| e.below(name@)),
{
    command.subcommand(verb.name(name))
}

/// Why a command line was rejected, or what is shown instead.
#[derive(Debug, Clone)]
pub struct Refusal {
    pub text: String,
    pub exit_code: i32,
    pub to_stderr: bool,
}

impl Refusal {
    /// Whether this is what is shown: a rejection goes to the standard error output and fails,
    /// and what was asked for does neither.
    pub open spec fn says(self, refusal: RefusalView) -> bool {
        &&& self.text@ == refusal.text
        &&& self.to_stderr == refusal.to_stderr
        &&& self.exit_code == if refusal.to_stderr {
            2int
        } else {
            0
        }
    }
}

/// `clap::Command::try_get_matches_from` reads a command line by a parser's rules. What it finds,
/// or what it shows instead, depends on the rules and on the command line alone: help texts are
/// laid out for a fixed width, and what is shown has no colours. The exit code of
/// `clap::Error::exit_code` is 2 for what goes to the standard error output, and 0 for the rest.
#[verifier::external_body]
fn match_arguments(command: clap::Command, args: &Vec<String>) -> (result: Result<
    clap::ArgMatches,
    Refusal,
>)
    ensures
        match arguments_matched(grammar_of(command), text::strings_view(args@)) {
            Ok(levels) => result matches Ok(m) && levels_of(m) == levels,
            Err(refusal) => result matches Err(r) && r.says(refusal),
        },
{
    command.try_get_matches_from(args).map_err(
        |e| Refusal { text: e.to_string(), exit_code: e.exit_code(), to_stderr: e.use_stderr() },
    )
}

/// `clap::ArgMatches::try_get_one` says of a flag whether it was given.
#[verifier::external_body]
fn flag_given(matches: &clap::ArgMatches, id: &str) -> (given: bool)
    ensures
        given == levels_of(*matches)[0].flags.contains(id@),
{
    matches.try_get_one::<bool>(id).ok().flatten().copied().unwrap_or_default()
}

/// `clap::ArgMatches::try_get_one` gives the value of an option or of a word.
#[verifier::external_body]
fn value_given(matches: &clap::ArgMatches, id: &str) -> (value: Option<String>)
    ensures
        overview::opt_view(value) == value_of(levels_of(*matches)[0], id@),
{
    matches.try_get_one::<String>(id).ok().flatten().cloned()
}

/// `clap::ArgMatches::subcommand` gives the command that follows, with what was said for it: the
/// levels below the first, of which there is one whenever a command follows.
#[verifier::external_body]
fn verb_given(matches: &clap::ArgMatches) -> (verb: Option<(String, clap::ArgMatches)>)
    ensures
        match verb {
            Some((name, below)) => levels_of(*matches)[0].verb == Some(name@) && levels_of(below)
                == levels_of(*matches).skip(1) && levels_of(*matches).len() >= 2,
            None => levels_of(*matches)[0].verb is None,
        },
{
    matches.subcommand().map(|(name, below)| (name.to_string(), below.clone()))
}

pub open spec fn value_of(level: LevelView, id: Seq<char>) -> Option<Seq<char>> {
    if level.values.contains_key(id) {
        Some(level.values[id])
    } else {
        None
    }
}

// ── What it means ──────────────────────────────────────────────────

/// The command line of the program.
#[derive(Debug, Clone)]
pub struct Cli {
    /// Start agent without attaching (returns the agent ID)
    pub background: bool,
    /// Attach to an existing agent by its 6-char ID
    pub attach: Option<String>,
    /// Stop: without value stops the hub daemon; with a 6-char ID stops that agent
    pub stop: Option<String>,
    /// Interactive picker to set the default agent
    pub default: bool,
    /// Auto-accept edits
    pub accept_edits: bool,
    /// Use a specific agent for this session (does not change the default)
    pub use_agent: Option<String>,
    /// Assign the agent to a named hub (snake_case; default: default_hub)
    pub hub: Option<String>,
    /// Initial prompt for the agent
    pub prompt: Option<String>,
    pub command: Option<Commands>,
}

/// The commands below the program.
#[derive(Debug, Clone)]
pub enum Commands {
    /// List all running agents in the hub
    Ls {
        /// Interactive selector: navigate with arrow keys, Enter to confirm
        select: bool,
        /// Filter agents by hub name
        hub: Option<String>,
    },
    /// Open the Clust terminal UI
    Ui,
    /// Repository management
    Repo {
        /// Register the current directory's git repository for tracking (by `-R` or by `-a`)
        register: bool,
        /// Remove a repository from clust tracking (stops all agents first)
        remove: bool,
        /// Stop all agents running on the current repository
        stop: bool,
    },
    /// Worktree management
    Wt(WtCommands),
}

/// The commands below `wt`.
#[derive(Debug, Clone)]
pub enum WtCommands {
    /// List worktrees in current repo
    Ls,
    /// Create a worktree with a new branch
    Add {
        name: String,
        /// Start an agent in the worktree, with this prompt unless it is empty
        prompt: Option<String>,
    },
    /// Remove a worktree
    Rm {
        branch: Option<String>,
        /// Remove the local branch too
        delete_local: bool,
    },
    /// Show worktree details
    Info { name: String },
}

#[verifier::ext_equal]
pub ghost struct CliView {
    pub background: bool,
    pub attach: Option<Seq<char>>,
    pub stop: Option<Seq<char>>,
    pub default: bool,
    pub accept_edits: bool,
    pub use_agent: Option<Seq<char>>,
    pub hub: Option<Seq<char>>,
    pub prompt: Option<Seq<char>>,
    pub command: Option<CommandsView>,
}

#[verifier::ext_equal]
pub ghost enum CommandsView {
    Ls { select: bool, hub: Option<Seq<char>> },
    Ui,
    Repo { register: bool, remove: bool, stop: bool },
    Wt(WtView),
}

#[verifier::ext_equal]
pub ghost enum WtView {
    Ls,
    Add { name: Seq<char>, prompt: Option<Seq<char>> },
    Rm { branch: Option<Seq<char>>, delete_local: bool },
    Info { name: Seq<char> },
}

pub open spec fn wt_view(w: WtCommands) -> WtView {
    match w {
        WtCommands::Ls => WtView::Ls,
        WtCommands::Add { name, prompt } => WtView::Add { name: name@, prompt: overview::opt_view(prompt) },
        WtCommands::Rm { branch, delete_local } => WtView::Rm {
            branch: overview::opt_view(branch),
            delete_local,
        },
        WtCommands::Info { name } => WtView::Info { name: name@ },
    }
}

pub open spec fn commands_view(c: Option<Commands>) -> Option<CommandsView> {
    match c {
        None => None,
        Some(Commands::Ls { select, hub }) => Some(
            CommandsView::Ls { select, hub: overview::opt_view(hub) },
        ),
        Some(Commands::Ui) => Some(CommandsView::Ui),
        Some(Commands::Repo { register, remove, stop }) => Some(
            CommandsView::Repo { register, remove, stop },
        ),
        Some(Commands::Wt(w)) => Some(CommandsView::Wt(wt_view(w))),
    }
}

impl View for Cli {
    type V = CliView;

    open spec fn view(&self) -> CliView {
        CliView {
            background: self.background,
            attach: overview::opt_view(self.attach),
            stop: overview::opt_view(self.stop),
            default: self.default,
            accept_edits: self.accept_edits,
            use_agent: overview::opt_view(self.use_agent),
            hub: overview::opt_view(self.hub),
            prompt: overview::opt_view(self.prompt),
            command: commands_view(self.command),
        }
    }
}

pub open spec fn or_empty(s: Option<Seq<char>>) -> Seq<char> {
    match s {
        Some(t) => t,
        None => Seq::empty(),
    }
}

/// What was said below `wt`.
pub open spec fn wt_of(levels: Seq<LevelView>) -> Option<CommandsView> {
    let below = levels[1];
    match levels[0].verb {
        None => None,
        Some(verb) => if verb == "ls"@ {
            Some(CommandsView::Wt(WtView::Ls))
        } else if verb == "add"@ {
            Some(
                CommandsView::Wt(
                    WtView::Add {
                        name: or_empty(value_of(below, "name"@)),
                        prompt: value_of(below, "prompt"@),
                    },
                ),
            )
        } else if verb == "rm"@ {
            Some(
                CommandsView::Wt(
                    WtView::Rm {
                        branch: value_of(below, "branch"@),
                        delete_local: below.flags.contains("delete_local"@),
                    },
                ),
            )
        } else if verb == "info"@ {
            Some(CommandsView::Wt(WtView::Info { name: or_empty(value_of(below, "name"@)) }))
        } else {
            None
        },
    }
}

/// The command that was said below the program.
pub open spec fn command_of(levels: Seq<LevelView>) -> Option<CommandsView> {
    let below = levels[1];
    match levels[0].verb {
        None => None,
        Some(verb) => if verb == "ls"@ {
            Some(
                CommandsView::Ls {
                    select: below.flags.contains("select"@),
                    hub: value_of(below, "hub"@),
                },
            )
        } else if verb == "ui"@ {
            Some(CommandsView::Ui)
        } else if verb == "repo"@ {
            Some(
                CommandsView::Repo {
                    register: below.flags.contains("register"@) || below.flags.contains("add"@),
                    remove: below.flags.contains("remove"@),
                    stop: below.flags.contains("stop"@),
                },
            )
        } else if verb == "wt"@ {
            wt_of(levels.skip(1))
        } else {
            None
        },
    }
}

/// What a command line means.
pub open spec fn cli_of(levels: Seq<LevelView>) -> CliView {
    let top = levels[0];
    CliView {
        background: top.flags.contains("background"@),
        attach: value_of(top, "attach"@),
        stop: value_of(top, "stop"@),
        default: top.flags.contains("default"@),
        accept_edits: top.flags.contains("accept_edits"@),
        use_agent: value_of(top, "use_agent"@),
        hub: value_of(top, "hub"@),
        prompt: value_of(top, "prompt"@),
        command: command_of(levels),
    }
}

/// One level of a command line in executable form.
#[derive(Debug, Clone)]
pub struct Level {
    pub flags: Vec<String>,
    pub values: Vec<(String, String)>,
    pub verb: Option<String>,
}

/// The value of the first pair with this id.
pub open spec fn pair_value(pairs: Seq<(String, String)>, id: Seq<char>) -> Option<Seq<char>>
    decreases pairs.len(),
{
    if pairs.len() == 0 {
        None
    } else if pairs[0].0@ == id {
        Some(pairs[0].1@)
    } else {
        pair_value(pairs.skip(1), id)
    }
}

impl View for Level {
    type V = LevelView;

    open spec fn view(&self) -> LevelView {
        LevelView {
            flags: text::strings_view(self.flags@).to_set(),
            values: Map::new(
                |id: Seq<char>| pair_value(self.values@, id) is Some,
                |id: Seq<char>| pair_value(self.values@, id)->0,
            ),
            verb: overview::opt_view(self.verb),
        }
    }
}

pub open spec fn all_levels(levels: Seq<Level>) -> Seq<LevelView> {
    levels.map_values(|l: Level| l@)
}

impl Level {
    fn has(&self, flag: &str) -> (yes: bool)
        ensures
            yes == self@.flags.contains(flag@),
    {
        let mut i: usize = 0;
        while i < self.flags.len()
            invariant
                i <= self.flags@.len(),
                forall|k: int| 0 <= k < i ==> text::strings_view(self.flags@)[k] != flag@,
            decreases self.flags@.len() - i,
        {
            if text_eq(self.flags[i].as_str(), flag) {
                assert(text::strings_view(self.flags@)[i as int] == flag@);
                assert(text::strings_view(self.flags@).contains(flag@));
                return true;
            }
            i += 1;
        }
        false
    }

    fn get(&self, id: &str) -> (value: Option<String>)
        ensures
            overview::opt_view(value) == value_of(self@, id@),
    {
        let mut i: usize = 0;
        assert(self.values@.skip(0) =~= self.values@);
        while i < self.values.len()
            invariant
                i <= self.values@.len(),
                pair_value(self.values@, id@) == pair_value(self.values@.skip(i as int), id@),
            decreases self.values@.len() - i,
        {
            if text_eq(self.values[i].0.as_str(), id) {
                return Some(self.values[i].1.clone());
            }
            assert(self.values@.skip(i as int).skip(1) =~= self.values@.skip(i + 1));
            i += 1;
        }
        None
    }

    fn is_verb(&self, name: &str) -> (yes: bool)
        ensures
            yes == (self@.verb == Some(name@)),
    {
        match &self.verb {
            Some(v) => text_eq(v.as_str(), name),
            None => false,
        }
    }
}

fn text_or_empty(s: Option<String>) -> (t: String)
    ensures
        t@ == or_empty(overview::opt_view(s)),
{
    match s {
        Some(t) => t,
        None => String::new(),
    }
}

/// Whether every command that is said has its own level.
pub open spec fn levels_complete(levels: Seq<LevelView>) -> bool {
    &&& levels.len() >= 1
    &&& levels[0].verb is Some ==> levels.len() >= 2
    &&& levels[0].verb == Some("wt"@) && levels[1].verb is Some ==> levels.len() >= 3
}

impl Cli {
    /// What a command line means, level by level.
    pub fn from_levels(levels: &Vec<Level>) -> (cli: Cli)
        requires
            levels_complete(all_levels(levels@)),
        ensures
            cli@ == cli_of(all_levels(levels@)),
    {
        let ghost views = all_levels(levels@);
        let top = &levels[0];
        assert(views[0] == top@);
        let command = if top.verb.is_none() {
            None
        } else {
            let below = &levels[1];
            assert(views[1] == below@);
            proof {
                reveal_strlit("ls");
                reveal_strlit("ui");
                reveal_strlit("repo");
                reveal_strlit("wt");
                assert("ls"@[0] != "ui"@[0]);
                assert("ls"@[0] != "wt"@[0]);
                assert("ui"@[0] != "wt"@[0]);
            }
            if top.is_verb("ls") {
                Some(Commands::Ls { select: below.has("select"), hub: below.get("hub") })
            } else if top.is_verb("ui") {
                Some(Commands::Ui)
            } else if top.is_verb("repo") {
                Some(
                    Commands::Repo {
                        register: below.has("register") || below.has("add"),
                        remove: below.has("remove"),
                        stop: below.has("stop"),
                    },
                )
            } else if top.is_verb("wt") {
                if below.verb.is_none() {
                    None
                } else {
                    let last = &levels[2];
                    assert(views[2] == last@);
                    assert(views.skip(1)[0] == views[1] && views.skip(1)[1] == views[2]);
                    if below.is_verb("ls") {
                        Some(Commands::Wt(WtCommands::Ls))
                    } else if below.is_verb("add") {
                        Some(
                            Commands::Wt(
                                WtCommands::Add {
                                    name: text_or_empty(last.get("name")),
                                    prompt: last.get("prompt"),
                                },
                            ),
                        )
                    } else if below.is_verb("rm") {
                        Some(
                            Commands::Wt(
                                WtCommands::Rm {
                                    branch: last.get("branch"),
                                    delete_local: last.has("delete_local"),
                                },
                            ),
                        )
                    } else if below.is_verb("info") {
                        Some(
                            Commands::Wt(WtCommands::Info { name: text_or_empty(last.get("name")) }),
                        )
                    } else {
                        None
                    }
                }
            } else {
                None
            }
        };
        let cli = Cli {
            background: top.has("background"),
            attach: top.get("attach"),
            stop: top.get("stop"),
            default: top.has("default"),
            accept_edits: top.has("accept_edits"),
            use_agent: top.get("use_agent"),
            hub: top.get("hub"),
            prompt: top.get("prompt"),
            command,
        };
        assert(commands_view(cli.command) == command_of(views));
        cli
    }
}

// ── The program's own grammar ──────────────────────────────────────

pub open spec fn flag(id: Seq<char>, short: char, long: Option<Seq<char>>, help: Seq<char>) -> RuleView {
    RuleView {
        id,
        short: Some(short),
        long,
        label: None,
        help,
        least: 0,
        most: 0,
        required: false,
        missing: None,
    }
}

/// An option with a value; where `missing` is there, the value may be left out.
pub open spec fn setting(
    id: Seq<char>,
    short: char,
    long: Option<Seq<char>>,
    missing: Option<Seq<char>>,
    label: Seq<char>,
    help: Seq<char>,
) -> RuleView {
    RuleView {
        id,
        short: Some(short),
        long,
        label: Some(label),
        help,
        least: if missing is Some {
            0
        } else {
            1
        },
        most: 1,
        required: false,
        missing,
    }
}

pub open spec fn word(id: Seq<char>, required: bool, label: Seq<char>, help: Seq<char>) -> RuleView {
    RuleView {
        id,
        short: None,
        long: None,
        label: Some(label),
        help,
        least: 1,
        most: 1,
        required,
        missing: None,
    }
}

pub open spec fn takes(rule: RuleView) -> Entry {
    Entry::Takes { path: Seq::empty(), rule }
}

/// A command with what can be said for it.
pub open spec fn verb(name: Seq<char>, below: Seq<Entry>) -> Seq<Entry> {
    seq![Entry::Verb { path: Seq::empty(), name }] + below.map_values(|e: Entry| e.below(name))
}

pub open spec fn program_rules(version: Seq<char>) -> Seq<Entry> {
    seq![
        intro("clust"@, "Agent manager CLI"@, Some(version), false),
        takes(
            flag(
                "background"@,
                'b',
                Some("background"@),
                "Start agent without attaching (returns the agent ID)"@,
            ),
        ),
        takes(
            setting(
                "attach"@,
                'a',
                Some("attach"@),
                None,
                "ID"@,
                "Attach to an existing agent by its 6-char ID"@,
            ),
        ),
        takes(
            setting(
                "stop"@,
                's',
                Some("stop"@),
                Some(""@),
                "ID"@,
                "Stop: without value stops the hub daemon; with a 6-char ID stops that agent"@,
            ),
        ),
        takes(
            flag("default"@, 'd', Some("default"@), "Interactive picker to set the default agent"@),
        ),
        takes(
            flag(
                "accept_edits"@,
                'e',
                Some("accept-edits"@),
                "Auto-accept edits (agent-specific, e.g. --permission-mode acceptEdits)"@,
            ),
        ),
        takes(
            setting(
                "use_agent"@,
                'u',
                Some("use"@),
                None,
                "AGENT"@,
                "Use a specific agent for this session (does not change the default)"@,
            ),
        ),
        takes(
            setting(
                "hub"@,
                'H',
                Some("hub"@),
                None,
                "NAME"@,
                "Assign the agent to a named hub (snake_case; default: default_hub)"@,
            ),
        ),
        takes(word("prompt"@, false, "PROMPT"@, "Initial prompt for the agent"@)),
    ]
}

pub open spec fn ls_rules() -> Seq<Entry> {
    seq![
        intro("ls"@, "List all running agents in the hub"@, None, false),
        takes(
            flag(
                "select"@,
                'i',
                Some("select"@),
                "Interactive selector: navigate with arrow keys, Enter to confirm"@,
            ),
        ),
        takes(setting("hub"@, 'H', Some("hub"@), None, "HUB"@, "Filter agents by hub name"@)),
    ]
}

pub open spec fn ui_rules() -> Seq<Entry> {
    seq![
        intro("ui"@, "Open the Clust terminal UI"@, None, false),
    ]
}

pub open spec fn repo_rules() -> Seq<Entry> {
    seq![
        intro("repo"@, "Repository management"@, None, false),
        takes(
            flag(
                "register"@,
                'R',
                Some("register"@),
                "Register the current directory's git repository for tracking"@,
            ),
        ),
        takes(
            flag(
                "add"@,
                'a',
                Some("add"@),
                "Register the current directory's git repository for tracking"@,
            ),
        ),
        takes(
            flag(
                "remove"@,
                'r',
                Some("remove"@),
                "Remove a repository from clust tracking (stops all agents first)"@,
            ),
        ),
        takes(
            flag("stop"@, 's', Some("stop"@), "Stop all agents running on the current repository"@),
        ),
    ]
}

pub open spec fn wt_ls_rules() -> Seq<Entry> {
    seq![
        intro("ls"@, "List worktrees in current repo"@, None, false),
    ]
}

pub open spec fn wt_add_rules() -> Seq<Entry> {
    seq![
        intro("add"@, "Create a worktree with a new branch"@, None, false),
        takes(word("name"@, true, "NAME"@, "Name of the branch"@)),
        takes(
            setting(
                "prompt"@,
                'p',
                Some("prompt"@),
                Some(""@),
                "PROMPT"@,
                "Start an agent in the worktree, with this prompt"@,
            ),
        ),
    ]
}

pub open spec fn wt_rm_rules() -> Seq<Entry> {
    seq![
        intro("rm"@, "Remove a worktree"@, None, false),
        takes(
            setting(
                "branch"@,
                'b',
                None,
                None,
                "BRANCH"@,
                "Branch of the worktree (default: the current one)"@,
            ),
        ),
        takes(flag("delete_local"@, 'l', None, "Remove the local branch too"@)),
    ]
}

pub open spec fn wt_info_rules() -> Seq<Entry> {
    seq![
        intro("info"@, "Show worktree details"@, None, false),
        takes(word("name"@, true, "NAME"@, "Name of the branch"@)),
    ]
}

pub open spec fn wt_rules() -> Seq<Entry> {
    seq![intro("wt"@, "Worktree management"@, None, true)] + verb("ls"@, wt_ls_rules()) + verb(
        "add"@,
        wt_add_rules(),
    ) + verb("rm"@, wt_rm_rules()) + verb("info"@, wt_info_rules())
}

/// All that can be said on the command line.
pub open spec fn program_grammar(version: Seq<char>) -> Seq<Entry> {
    program_rules(version) + verb("ls"@, ls_rules()) + verb("ui"@, ui_rules()) + verb(
        "repo"@,
        repo_rules(),
    ) + verb("wt"@, wt_rules())
}

fn flag_rule(id: &'static str, short: char, long: Option<&'static str>, help: &'static str) -> (r:
    Rule)
    ensures
        r@ == flag(id@, short, static_text(long), help@),
{
    Rule {
        id,
        short: Some(short),
        long,
        label: None,
        help,
        least: 0,
        most: 0,
        required: false,
        missing: None,
    }
}

fn setting_rule(
    id: &'static str,
    short: char,
    long: Option<&'static str>,
    missing: Option<&'static str>,
    label: &'static str,
    help: &'static str,
) -> (r: Rule)
    ensures
        r@ == setting(id@, short, static_text(long), static_text(missing), label@, help@),
{
    let least: usize = if missing.is_some() {
        0
    } else {
        1
    };
    Rule {
        id,
        short: Some(short),
        long,
        label: Some(label),
        help,
        least,
        most: 1,
        required: false,
        missing,
    }
}

fn word_rule(id: &'static str, required: bool, label: &'static str, help: &'static str) -> (r: Rule)
    ensures
        r@ == word(id@, required, label@, help@),
{
    Rule {
        id,
        short: None,
        long: None,
        label: Some(label),
        help,
        least: 1,
        most: 1,
        required,
        missing: None,
    }
}

proof fn lemma_reserved(id: Seq<char>)
    requires
        id.len() != 4 || id[0] != 'h',
        id.len() != 7 || id[0] != 'v',
    ensures
        id != "help"@,
        id != "version"@,
{
    reveal_strlit("help");
    reveal_strlit("version");
}

fn program_parser(version: &'static str) -> (command: clap::Command)
    ensures
        grammar_of(command) == program_rules(version@),
{
    proof {
        reveal_strlit("clust");
        reveal_strlit("background");
        reveal_strlit("attach");
        reveal_strlit("stop");
        reveal_strlit("default");
        reveal_strlit("accept_edits");
        reveal_strlit("accept-edits");
        reveal_strlit("use_agent");
        reveal_strlit("use");
        reveal_strlit("hub");
        reveal_strlit("prompt");
        lemma_reserved("background"@);
        lemma_reserved("attach"@);
        lemma_reserved("stop"@);
        lemma_reserved("default"@);
        lemma_reserved("accept_edits"@);
        lemma_reserved("accept-edits"@);
        lemma_reserved("use_agent"@);
        lemma_reserved("use"@);
        lemma_reserved("hub"@);
        lemma_reserved("prompt"@);
        assert("use"@[0] != "hub"@[0]);
        assert("prompt"@[0] != "attach"@[0]);
    }
    let c = new_parser("clust", "Agent manager CLI", Some(version), false);
    let c = with_rule(
        c,
        flag_rule(
            "background",
            'b',
            Some("background"),
            "Start agent without attaching (returns the agent ID)",
        ),
    );
    let c = with_rule(
        c,
        setting_rule(
            "attach",
            'a',
            Some("attach"),
            None,
            "ID",
            "Attach to an existing agent by its 6-char ID",
        ),
    );
    let c = with_rule(
        c,
        setting_rule(
            "stop",
            's',
            Some("stop"),
            Some(""),
            "ID",
            "Stop: without value stops the hub daemon; with a 6-char ID stops that agent",
        ),
    );
    let c = with_rule(
        c,
        flag_rule("default", 'd', Some("default"), "Interactive picker to set the default agent"),
    );
    let c = with_rule(
        c,
        flag_rule(
            "accept_edits",
            'e',
            Some("accept-edits"),
            "Auto-accept edits (agent-specific, e.g. --permission-mode acceptEdits)",
        ),
    );
    let c = with_rule(
        c,
        setting_rule(
            "use_agent",
            'u',
            Some("use"),
            None,
            "AGENT",
            "Use a specific agent for this session (does not change the default)",
        ),
    );
    let c = with_rule(
        c,
        setting_rule(
            "hub",
            'H',
            Some("hub"),
            None,
            "NAME",
            "Assign the agent to a named hub (snake_case; default: default_hub)",
        ),
    );
    let c = with_rule(c, word_rule("prompt", false, "PROMPT", "Initial prompt for the agent"));
    assert(grammar_of(c) =~= program_rules(version@));
    c
}

fn ls_parser() -> (command: clap::Command)
    ensures
        grammar_of(command) == ls_rules(),
{
    proof {
        reveal_strlit("ls");
        reveal_strlit("select");
        reveal_strlit("hub");
        lemma_reserved("select"@);
        lemma_reserved("hub"@);
    }
    let c = new_parser("ls", "List all running agents in the hub", None, false);
    let c = with_rule(
        c,
        flag_rule(
            "select",
            'i',
            Some("select"),
            "Interactive selector: navigate with arrow keys, Enter to confirm",
        ),
    );
    let c = with_rule(
        c,
        setting_rule("hub", 'H', Some("hub"), None, "HUB", "Filter agents by hub name"),
    );
    assert(grammar_of(c) =~= ls_rules());
    c
}

fn repo_parser() -> (command: clap::Command)
    ensures
        grammar_of(command) == repo_rules(),
{
    proof {
        reveal_strlit("repo");
        reveal_strlit("register");
        reveal_strlit("add");
        reveal_strlit("remove");
        reveal_strlit("stop");
        lemma_reserved("register"@);
        lemma_reserved("add"@);
        lemma_reserved("remove"@);
        lemma_reserved("stop"@);
    }
    let c = new_parser("repo", "Repository management", None, false);
    let c = with_rule(
        c,
        flag_rule(
            "register",
            'R',
            Some("register"),
            "Register the current directory's git repository for tracking",
        ),
    );
    let c = with_rule(
        c,
        flag_rule(
            "add",
            'a',
            Some("add"),
            "Register the current directory's git repository for tracking",
        ),
    );
    let c = with_rule(
        c,
        flag_rule(
            "remove",
            'r',
            Some("remove"),
            "Remove a repository from clust tracking (stops all agents first)",
        ),
    );
    let c = with_rule(
        c,
        flag_rule("stop", 's', Some("stop"), "Stop all agents running on the current repository"),
    );
    assert(grammar_of(c) =~= repo_rules());
    c
}

fn wt_parser() -> (command: clap::Command)
    ensures
        grammar_of(command) == wt_rules(),
{
    proof {
        reveal_strlit("wt");
        reveal_strlit("ls");
        reveal_strlit("add");
        reveal_strlit("rm");
        reveal_strlit("info");
        reveal_strlit("name");
        reveal_strlit("prompt");
        reveal_strlit("branch");
        reveal_strlit("delete_local");
        lemma_reserved("ls"@);
        lemma_reserved("add"@);
        lemma_reserved("rm"@);
        lemma_reserved("info"@);
        lemma_reserved("name"@);
        lemma_reserved("prompt"@);
        lemma_reserved("branch"@);
        lemma_reserved("delete_local"@);
        assert("rm"@[0] != "ls"@[0]);
    }
    let ls = new_parser("ls", "List worktrees in current repo", None, false);
    let add = new_parser("add", "Create a worktree with a new branch", None, false);
    let add = with_rule(add, word_rule("name", true, "NAME", "Name of the branch"));
    let add = with_rule(
        add,
        setting_rule(
            "prompt",
            'p',
            Some("prompt"),
            Some(""),
            "PROMPT",
            "Start an agent in the worktree, with this prompt",
        ),
    );
    assert(grammar_of(add) =~= wt_add_rules());
    let rm = new_parser("rm", "Remove a worktree", None, false);
    let rm = with_rule(
        rm,
        setting_rule(
            "branch",
            'b',
            None,
            None,
            "BRANCH",
            "Branch of the worktree (default: the current one)",
        ),
    );
    let rm = with_rule(rm, flag_rule("delete_local", 'l', None, "Remove the local branch too"));
    assert(grammar_of(rm) =~= wt_rm_rules());
    let info = new_parser("info", "Show worktree details", None, false);
    let info = with_rule(info, word_rule("name", true, "NAME", "Name of the branch"));
    assert(grammar_of(info) =~= wt_info_rules());
    let c = new_parser("wt", "Worktree management", None, true);
    let ghost start = seq![intro("wt"@, "Worktree management"@, None, true)];
    let c = with_verb(c, "ls", ls);
    assert(grammar_of(c) =~= start + verb("ls"@, wt_ls_rules()));
    let c = with_verb(c, "add", add);
    assert(grammar_of(c) =~= start + verb("ls"@, wt_ls_rules()) + verb("add"@, wt_add_rules()));
    proof {
        lemma_verb_keeps_names_free(start + verb("ls"@, wt_ls_rules()), "add"@, wt_add_rules(), "rm"@);
    }
    let c = with_verb(c, "rm", rm);
    assert(grammar_of(c) =~= start + verb("ls"@, wt_ls_rules()) + verb("add"@, wt_add_rules())
        + verb("rm"@, wt_rm_rules()));
    proof {
        let two = start + verb("ls"@, wt_ls_rules()) + verb("add"@, wt_add_rules());
        lemma_verb_keeps_names_free(start + verb("ls"@, wt_ls_rules()), "add"@, wt_add_rules(), "info"@);
        lemma_verb_keeps_names_free(two, "rm"@, wt_rm_rules(), "info"@);
    }
    let c = with_verb(c, "info", info);
    assert(grammar_of(c) =~= wt_rules());
    c
}

/// A command leaves every other name free.
proof fn lemma_verb_keeps_names_free(grammar: Seq<Entry>, name: Seq<char>, below: Seq<Entry>, other: Seq<char>)
    requires
        verb_fits(grammar, other),
        name != other,
    ensures
        verb_fits(grammar + verb(name, below), other),
{
    let all = grammar + verb(name, below);
    assert forall|k: int| 0 <= k < all.len() implies ((#[trigger] all[k]) matches Entry::Verb {
        path,
        name: n,
    } ==> path.len() == 0 ==> n != other) by {
        if k < grammar.len() {
            assert(all[k] == grammar[k]);
        } else if k > grammar.len() {
            let e = below[k - grammar.len() - 1];
            assert(all[k] == e.below(name));
        }
    }
}

/// A parser for the whole command line.
fn whole_parser(version: &'static str) -> (command: clap::Command)
    ensures
        grammar_of(command) == program_grammar(version@),
{
    proof {
        reveal_strlit("ls");
        reveal_strlit("ui");
        reveal_strlit("repo");
        reveal_strlit("wt");
        lemma_reserved("ls"@);
        lemma_reserved("ui"@);
        lemma_reserved("repo"@);
        lemma_reserved("wt"@);
        assert("ls"@[0] != "ui"@[0] && "ls"@[0] != "wt"@[0] && "ui"@[0] != "wt"@[0]);
    }
    let ghost top = program_rules(version@);
    let c = program_parser(version);
    let ls = ls_parser();
    let repo = repo_parser();
    let wt = wt_parser();
    let ui = new_parser("ui", "Open the Clust terminal UI", None, false);
    let c = with_verb(c, "ls", ls);
    assert(grammar_of(c) =~= top + verb("ls"@, ls_rules()));
    proof {
        assert(verb_fits(top, "ui"@) && verb_fits(top, "repo"@) && verb_fits(top, "wt"@));
        lemma_verb_keeps_names_free(top, "ls"@, ls_rules(), "ui"@);
        lemma_verb_keeps_names_free(top, "ls"@, ls_rules(), "repo"@);
        lemma_verb_keeps_names_free(top, "ls"@, ls_rules(), "wt"@);
    }
    let c = with_verb(c, "ui", ui);
    let ghost two = top + verb("ls"@, ls_rules());
    assert(grammar_of(c) =~= two + verb("ui"@, ui_rules()));
    proof {
        lemma_verb_keeps_names_free(two, "ui"@, ui_rules(), "repo"@);
        lemma_verb_keeps_names_free(two, "ui"@, ui_rules(), "wt"@);
    }
    let c = with_verb(c, "repo", repo);
    let ghost three = two + verb("ui"@, ui_rules());
    assert(grammar_of(c) =~= three + verb("repo"@, repo_rules()));
    proof {
        lemma_verb_keeps_names_free(three, "repo"@, repo_rules(), "wt"@);
    }
    let c = with_verb(c, "wt", wt);
    assert(grammar_of(c) =~= program_grammar(version@));
    c
}

// ── Reading a command line ─────────────────────────────────────────

/// Whether a level says the same as another of some flags and values, and of the command that
/// follows.
pub open spec fn agrees(
    level: LevelView,
    full: LevelView,
    flags: Seq<Seq<char>>,
    values: Seq<Seq<char>>,
) -> bool {
    &&& level.verb == full.verb
    &&& forall|i: int|
        0 <= i < flags.len() ==> level.flags.contains(#[trigger] flags[i]) == full.flags.contains(
            flags[i],
        )
    &&& forall|i: int|
        0 <= i < values.len() ==> value_of(level, #[trigger] values[i]) == value_of(
            full,
            values[i],
        )
}

pub open spec fn statics_view(texts: Seq<&'static str>) -> Seq<Seq<char>> {
    texts.map_values(|t: &'static str| t@)
}

fn read_level(
    matches: &clap::ArgMatches,
    verb: Option<String>,
    flags: &Vec<&'static str>,
    values: &Vec<&'static str>,
) -> (level: Level)
    requires
        overview::opt_view(verb) == levels_of(*matches)[0].verb,
    ensures
        agrees(
            level@,
            levels_of(*matches)[0],
            statics_view(flags@),
            statics_view(values@),
        ),
{
    let ghost full = levels_of(*matches)[0];
    let mut given: Vec<String> = Vec::new();
    let mut i: usize = 0;
    while i < flags.len()
        invariant
            i <= flags@.len(),
            full == levels_of(*matches)[0],
            forall|s: Seq<char>|
                #[trigger] text::strings_view(given@).contains(s) ==> full.flags.contains(s),
            forall|k: int|
                0 <= k < i && full.flags.contains(#[trigger] statics_view(flags@)[k])
                    ==> text::strings_view(given@).contains(statics_view(flags@)[k]),
        decreases flags@.len() - i,
    {
        let id = flags[i];
        let ghost before = text::strings_view(given@);
        if flag_given(matches, id) {
            given.push(copy_of(id));
            proof {
                let now = text::strings_view(given@);
                assert(now =~= before.push(id@));
                assert(now[now.len() - 1] == id@);
                assert forall|s: Seq<char>| #[trigger] now.contains(s) implies full.flags.contains(
                    s,
                ) by {
                    let j = choose|j: int| 0 <= j < now.len() && now[j] == s;
                    if j < before.len() {
                        assert(before[j] == s);
                        assert(before.contains(s));
                    }
                }
                assert forall|k: int|
                    0 <= k < i + 1 && full.flags.contains(
                        #[trigger] statics_view(flags@)[k],
                    ) implies now.contains(statics_view(flags@)[k]) by {
                    if k < i {
                        let s = statics_view(flags@)[k];
                        assert(before.contains(s));
                        let j = choose|j: int| 0 <= j < before.len() && before[j] == s;
                        assert(now[j] == s);
                    }
                }
            }
        }
        i += 1;
    }
    let mut pairs: Vec<(String, String)> = Vec::new();
    let mut k: usize = 0;
    while k < values.len()
        invariant
            k <= values@.len(),
            full == levels_of(*matches)[0],
            forall|j: int|
                0 <= j < pairs@.len() ==> value_of(full, (#[trigger] pairs@[j]).0@) == Some(
                    pairs@[j].1@,
                ),
            forall|j: int|
                0 <= j < k && value_of(full, #[trigger] statics_view(values@)[j]) is Some
                    ==> has_pair(pairs@, statics_view(values@)[j]),
        decreases values@.len() - k,
    {
        let id = values[k];
        let ghost before = pairs@;
        if let Some(v) = value_given(matches, id) {
            pairs.push((copy_of(id), v));
            proof {
                assert(pairs@[pairs@.len() - 1].0@ == id@);
                assert forall|j: int|
                    0 <= j < k + 1 && value_of(
                        full,
                        #[trigger] statics_view(values@)[j],
                    ) is Some implies has_pair(pairs@, statics_view(values@)[j]) by {
                    if j < k {
                        let s = statics_view(values@)[j];
                        assert(has_pair(before, s));
                        let n = choose|n: int| 0 <= n < before.len() && before[n].0@ == s;
                        assert(pairs@[n].0@ == s);
                    }
                }
            }
        }
        k += 1;
    }
    let level = Level { flags: given, values: pairs, verb };
    proof {
        assert forall|j: int| 0 <= j < statics_view(values@).len() implies value_of(
            level@,
            #[trigger] statics_view(values@)[j],
        ) == value_of(full, statics_view(values@)[j]) by {
            lemma_pairs(pairs@, full, statics_view(values@)[j]);
        }
        assert forall|j: int|
            0 <= j < statics_view(flags@).len() implies level@.flags.contains(
            #[trigger] statics_view(flags@)[j],
        ) == full.flags.contains(statics_view(flags@)[j]) by {
            let s = statics_view(flags@)[j];
            assert(level@.flags.contains(s) == text::strings_view(given@).contains(s));
        }
    }
    level
}

pub open spec fn has_pair(pairs: Seq<(String, String)>, id: Seq<char>) -> bool {
    exists|n: int| 0 <= n < pairs.len() && (#[trigger] pairs[n]).0@ == id
}

proof fn lemma_pairs(pairs: Seq<(String, String)>, full: LevelView, id: Seq<char>)
    requires
        forall|j: int|
            0 <= j < pairs.len() ==> value_of(full, (#[trigger] pairs[j]).0@) == Some(pairs[j].1@),
        value_of(full, id) is Some ==> has_pair(pairs, id),
    ensures
        pair_value(pairs, id) == value_of(full, id),
    decreases pairs.len(),
{
    if pairs.len() > 0 {
        assert(value_of(full, pairs[0].0@) == Some(pairs[0].1@));
        if pairs[0].0@ != id {
            let rest = pairs.skip(1);
            assert forall|j: int| 0 <= j < rest.len() implies value_of(
                full,
                (#[trigger] rest[j]).0@,
            ) == Some(rest[j].1@) by {
                assert(rest[j] == pairs[j + 1]);
            }
            if value_of(full, id) is Some {
                let n = choose|n: int| 0 <= n < pairs.len() && (#[trigger] pairs[n]).0@ == id;
                assert(rest[n - 1].0@ == id);
                assert(has_pair(rest, id));
            }
            lemma_pairs(rest, full, id);
        }
    }
}

impl Cli {
    /// Reads a command line, the program's name first.
    pub fn try_parse_from(args: &Vec<String>, version: &'static str) -> (result: Result<
        Cli,
        Refusal,
    >)
        ensures
            ({
                let grammar = program_grammar(version@);
                match arguments_matched(grammar, text::strings_view(args@)) {
                    Ok(levels) => result matches Ok(cli) && cli@ == cli_of(levels),
                    Err(refusal) => result matches Err(r) && r.says(refusal),
                }
            }),
    {
        let matches = match match_arguments(whole_parser(version), args) {
            Ok(m) => m,
            Err(e) => return Err(e),
        };
        let top_flags: Vec<&'static str> = vec!["background", "default", "accept_edits"];
        let top_values: Vec<&'static str> = vec!["attach", "stop", "use_agent", "hub", "prompt"];
        let flags: Vec<&'static str> = vec![
            "select",
            "register",
            "add",
            "remove",
            "stop",
            "delete_local",
        ];
        let values: Vec<&'static str> = vec!["hub", "name", "prompt", "branch"];
        let ghost full = levels_of(matches);
        let mut levels: Vec<Level> = Vec::new();
        match verb_given(&matches) {
            None => {
                levels.push(read_level(&matches, None, &top_flags, &top_values));
            },
            Some((name, below)) => {
                levels.push(read_level(&matches, Some(name), &top_flags, &top_values));
                match verb_given(&below) {
                    None => {
                        levels.push(read_level(&below, None, &flags, &values));
                    },
                    Some((inner, last)) => {
                        levels.push(read_level(&below, Some(inner), &flags, &values));
                        levels.push(read_level(&last, last_verb(&last), &flags, &values));
                        assert(full.skip(1).skip(1)[0] == full[2]);
                    },
                }
                assert(full.skip(1)[0] == full[1]);
            },
        }
        let ghost plain = all_levels(levels@);
        proof {
            let tf = statics_view(top_flags@);
            let tv = statics_view(top_values@);
            assert(tf[0] == "background"@ && tf[1] == "default"@ && tf[2] == "accept_edits"@);
            assert(tv[0] == "attach"@ && tv[1] == "stop"@ && tv[2] == "use_agent"@ && tv[3]
                == "hub"@ && tv[4] == "prompt"@);
            let f = statics_view(flags@);
            let v = statics_view(values@);
            assert(f[0] == "select"@ && f[1] == "register"@ && f[2] == "add"@ && f[3]
                == "remove"@ && f[4] == "stop"@ && f[5] == "delete_local"@);
            assert(v[0] == "hub"@ && v[1] == "name"@ && v[2] == "prompt"@ && v[3] == "branch"@);
            assert(agrees(plain[0], full[0], tf, tv));
            if full[0].verb is Some {
                assert(agrees(plain[1], full[1], f, v));
                if full[1].verb is Some {
                    assert(agrees(plain[2], full[2], f, v));
                    assert(plain.skip(1)[1] == plain[2] && full.skip(1)[1] == full[2]);
                }
                assert(plain.skip(1)[0] == plain[1] && full.skip(1)[0] == full[1]);
            }
            assert(command_of(plain) == command_of(full));
            assert(cli_of(plain) =~= cli_of(full));
        }
        Ok(Cli::from_levels(&levels))
    }
}

fn last_verb(matches: &clap::ArgMatches) -> (verb: Option<String>)
    ensures
        overview::opt_view(verb) == levels_of(*matches)[0].verb,
{
    match verb_given(matches) {
        Some((name, _below)) => Some(name),
        None => None,
    }
}

// ── Laws ───────────────────────────────────────────────────────────

/// A name is valid if it starts with a lowercase letter, goes on with lowercase letters, digits and
/// single underscores, and does not end with an underscore.
pub proof fn snake_case_names_are_valid(name: Seq<char>)
    requires
        name.len() > 0,
        'a' <= name[0] <= 'z',
        forall|i: int|
            0 <= i < name.len() ==> 'a' <= #[trigger] name[i] <= 'z' || '0' <= name[i] <= '9'
                || name[i] == '_',
        forall|i: int|
            0 <= i < name.len() - 1 ==> !(#[trigger] name[i] == '_' && name[i + 1] == '_'),
        name.last() != '_',
    ensures
        name_fault(name) is None,
{
    lemma_all_snake(name, 1);
}

proof fn lemma_all_snake(name: Seq<char>, i: int)
    requires
        0 <= i,
        forall|k: int| 0 <= k < name.len() ==> is_snake(#[trigger] name[k]),
    ensures
        first_misfit(name, i) is None,
    decreases name.len() - i,
{
    if i < name.len() {
        lemma_all_snake(name, i + 1);
    }
}

/// Two underscores in a row make a name invalid.
pub proof fn doubled_underscores_are_refused(name: Seq<char>, i: int)
    requires
        0 <= i < name.len() - 1,
        name[i] == '_',
        name[i + 1] == '_',
    ensures
        name_fault(name) is Some,
{
}

/// Whether a command takes an option with this letter and this long name, and it is the one that is
/// known as `id`.
pub open spec fn takes_option(
    rules: Seq<Entry>,
    letter: char,
    long: Option<Seq<char>>,
    id: Seq<char>,
) -> bool {
    exists|k: int|
        0 <= k < rules.len() && ((#[trigger] rules[k]) matches Entry::Takes { path, rule }
            && rule.short == Some(letter) && rule.long == long && rule.id == id)
}

/// The options of the program set what their letters and names stand for.
pub proof fn program_options_set_what_they_name(levels: Seq<LevelView>, version: Seq<char>)
    ensures
        ({
            let rules = program_rules(version);
            let top = levels[0];
            let cli = cli_of(levels);
            &&& takes_option(rules, 'b', Some("background"@), "background"@)
            &&& cli.background <==> top.flags.contains("background"@)
            &&& takes_option(rules, 'a', Some("attach"@), "attach"@)
            &&& cli.attach == value_of(top, "attach"@)
            &&& takes_option(rules, 's', Some("stop"@), "stop"@)
            &&& cli.stop == value_of(top, "stop"@)
            &&& takes_option(rules, 'd', Some("default"@), "default"@)
            &&& cli.default <==> top.flags.contains("default"@)
            &&& takes_option(rules, 'e', Some("accept-edits"@), "accept_edits"@)
            &&& cli.accept_edits <==> top.flags.contains("accept_edits"@)
            &&& takes_option(rules, 'u', Some("use"@), "use_agent"@)
            &&& cli.use_agent == value_of(top, "use_agent"@)
            &&& takes_option(rules, 'H', Some("hub"@), "hub"@)
            &&& cli.hub == value_of(top, "hub"@)
            &&& cli.prompt == value_of(top, "prompt"@)
        }),
{
    let rules = program_rules(version);
    assert(rules[1] is Takes && rules[2] is Takes && rules[3] is Takes && rules[4] is Takes
        && rules[5] is Takes && rules[6] is Takes && rules[7] is Takes);
}

/// The options of the commands set what their letters and names stand for.
pub proof fn command_options_set_what_they_name(levels: Seq<LevelView>)
    requires
        levels.len() >= 2,
    ensures
        ({
            let below = levels[1];
            let command = command_of(levels);
            &&& takes_option(ls_rules(), 'i', Some("select"@), "select"@)
            &&& takes_option(ls_rules(), 'H', Some("hub"@), "hub"@)
            &&& levels[0].verb == Some("ls"@) ==> command == Some(
                CommandsView::Ls {
                    select: below.flags.contains("select"@),
                    hub: value_of(below, "hub"@),
                },
            )
            &&& takes_option(repo_rules(), 'a', Some("add"@), "add"@)
            &&& takes_option(repo_rules(), 'R', Some("register"@), "register"@)
            &&& takes_option(repo_rules(), 'r', Some("remove"@), "remove"@)
            &&& takes_option(repo_rules(), 's', Some("stop"@), "stop"@)
            &&& levels[0].verb == Some("repo"@) ==> command == Some(
                CommandsView::Repo {
                    register: below.flags.contains("add"@) || below.flags.contains("register"@),
                    remove: below.flags.contains("remove"@),
                    stop: below.flags.contains("stop"@),
                },
            )
            &&& levels[0].verb == Some("ui"@) ==> command == Some(CommandsView::Ui)
            &&& levels[0].verb is None ==> command is None
        }),
{
    reveal_strlit("ls");
    reveal_strlit("ui");
    reveal_strlit("repo");
    reveal_strlit("wt");
    assert("ls"@[0] != "ui"@[0] && "repo"@[0] != "ui"@[0] && "repo"@[0] != "ls"@[0]);
    assert(ls_rules()[1] is Takes && ls_rules()[2] is Takes);
    assert(repo_rules()[1] is Takes && repo_rules()[2] is Takes && repo_rules()[3] is Takes
        && repo_rules()[4] is Takes);
}

/// The options of the commands on worktrees set what their letters and names stand for.
pub proof fn worktree_options_set_what_they_name(levels: Seq<LevelView>)
    requires
        levels.len() >= 3,
        levels[0].verb == Some("wt"@),
    ensures
        ({
            let below = levels[2];
            let verb = levels[1].verb;
            let command = command_of(levels);
            &&& takes_option(wt_rm_rules(), 'b', None, "branch"@)
            &&& takes_option(wt_rm_rules(), 'l', None, "delete_local"@)
            &&& verb == Some("rm"@) ==> command == Some(
                CommandsView::Wt(
                    WtView::Rm {
                        branch: value_of(below, "branch"@),
                        delete_local: below.flags.contains("delete_local"@),
                    },
                ),
            )
            &&& takes_option(wt_add_rules(), 'p', Some("prompt"@), "prompt"@)
            &&& verb == Some("add"@) && value_of(below, "name"@) is Some ==> command == Some(
                CommandsView::Wt(
                    WtView::Add {
                        name: value_of(below, "name"@)->0,
                        prompt: value_of(below, "prompt"@),
                    },
                ),
            )
            &&& verb == Some("info"@) && value_of(below, "name"@) is Some ==> command == Some(
                CommandsView::Wt(WtView::Info { name: value_of(below, "name"@)->0 }),
            )
            &&& verb == Some("ls"@) ==> command == Some(CommandsView::Wt(WtView::Ls))
        }),
{
    reveal_strlit("ls");
    reveal_strlit("ui");
    reveal_strlit("repo");
    reveal_strlit("wt");
    reveal_strlit("rm");
    reveal_strlit("add");
    reveal_strlit("info");
    assert("wt"@[0] != "ui"@[0] && "wt"@[0] != "ls"@[0] && "wt"@[0] != "repo"@[0]);
    assert("rm"@[0] != "ls"@[0] && "rm"@[0] != "add"@[0] && "rm"@[0] != "info"@[0]);
    assert("add"@[0] != "ls"@[0] && "info"@[0] != "ls"@[0] && "info"@[0] != "add"@[0]);
    assert(levels.skip(1)[1] == levels[2]);
    assert(wt_rm_rules()[1] is Takes && wt_rm_rules()[2] is Takes);
    assert(wt_add_rules()[2] is Takes);
}

/// Flags take no value, settings take one, and words are taken as they stand; a setting that
/// may do without has what stands in for it.
pub proof fn options_take_what_they_need(
    id: Seq<char>,
    short: char,
    long: Option<Seq<char>>,
    missing: Option<Seq<char>>,
    label: Seq<char>,
    help: Seq<char>,
    required: bool,
)
    ensures
        flag(id, short, long, help).most == 0,
        !flag(id, short, long, help).required,
        setting(id, short, long, missing, label, help).most == 1,
        setting(id, short, long, missing, label, help).least == 0 <==> missing is Some,
        setting(id, short, long, missing, label, help).missing == missing,
        !setting(id, short, long, missing, label, help).required,
        word(id, required, label, help).is_word(),
        word(id, required, label, help).least == 1,
        word(id, required, label, help).required == required,
        flag(id, short, long, help).id == id,
        setting(id, short, long, missing, label, help).id == id,
        word(id, required, label, help).id == id,
        flag(id, short, long, help).short == Some(short),
        setting(id, short, long, missing, label, help).short == Some(short),
{
}

/// Whether a rule of a grammar takes a value and may do without one.
pub open spec fn value_taken(rules: Seq<Entry>, id: Seq<char>, least: int, most: int) -> bool {
    exists|k: int|
        0 <= k < rules.len() && ((#[trigger] rules[k]) matches Entry::Takes { path, rule }
            && rule.id == id && rule.least == least && rule.most == most)
}

/// Stopping may name an agent and attaching has to; whether to run in the background, to accept
/// edits or to pick a default is said without a value.
pub proof fn program_options_take_their_values(version: Seq<char>)
    ensures
        value_taken(program_rules(version), "stop"@, 0, 1),
        value_taken(program_rules(version), "attach"@, 1, 1),
        value_taken(program_rules(version), "use_agent"@, 1, 1),
        value_taken(program_rules(version), "hub"@, 1, 1),
        value_taken(program_rules(version), "prompt"@, 1, 1),
        value_taken(program_rules(version), "background"@, 0, 0),
        value_taken(program_rules(version), "accept_edits"@, 0, 0),
        value_taken(program_rules(version), "default"@, 0, 0),
        value_taken(wt_add_rules(), "name"@, 1, 1),
        value_taken(wt_add_rules(), "prompt"@, 0, 1),
        value_taken(wt_rm_rules(), "branch"@, 1, 1),
        value_taken(wt_rm_rules(), "delete_local"@, 0, 0),
        value_taken(ls_rules(), "select"@, 0, 0),
        value_taken(ls_rules(), "hub"@, 1, 1),
{
    let top = program_rules(version);
    assert(top[1] is Takes && top[2] is Takes && top[3] is Takes && top[4] is Takes);
    assert(top[5] is Takes && top[6] is Takes && top[7] is Takes && top[8] is Takes);
    let add = wt_add_rules();
    assert(add[1] is Takes && add[2] is Takes);
    let rm = wt_rm_rules();
    assert(rm[1] is Takes && rm[2] is Takes);
    let ls = ls_rules();
    assert(ls[1] is Takes && ls[2] is Takes);
}

/// A command's own rules stand below it: each entry keeps what it is and has the command's name
/// in front of its path.
pub proof fn commands_have_their_own_rules(name: Seq<char>, below: Seq<Entry>, k: int)
    requires
        0 <= k < below.len(),
    ensures
        verb(name, below).len() == below.len() + 1,
        verb(name, below)[0] is Verb,
        verb(name, below)[0]->Verb_name == name,
        verb(name, below)[0]->Verb_path.len() == 0,
        below[k] is Takes ==> verb(name, below)[k + 1] is Takes && verb(name, below)[k
            + 1]->Takes_rule == below[k]->Takes_rule && verb(name, below)[k + 1]->Takes_path
            == seq![name] + below[k]->Takes_path,
{
}

/// A value is the one given first for its option.
pub proof fn values_are_those_given_first(pairs: Seq<(String, String)>, id: Seq<char>, i: int)
    requires
        0 <= i <= pairs.len(),
        forall|j: int| 0 <= j < i ==> (#[trigger] pairs[j]).0@ != id,
    ensures
        i < pairs.len() && pairs[i].0@ == id ==> pair_value(pairs, id) == Some(pairs[i].1@),
        i == pairs.len() ==> pair_value(pairs, id) is None,
    decreases pairs.len(),
{
    if i > 0 {
        assert(pairs[0].0@ != id);
        let rest = pairs.skip(1);
        assert forall|j: int| 0 <= j < i - 1 implies (#[trigger] rest[j]).0@ != id by {
            assert(rest[j] == pairs[j + 1]);
        }
        values_are_those_given_first(rest, id, i - 1);
    }
}

} // verus!
