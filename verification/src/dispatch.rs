//! The dispatcher: an ordered list of declared commands, a `help` command
//! built from them, and the rule that resolves one invocation to one action.
//!
//! The dispatcher decides and reports; it runs no command itself. Where a
//! declared command is to run, the outcome names it by its place in the list
//! and carries the filled record.

use crate::decl::{
    declaration_error, declared, first_clause_error, flag_groups_of, is_group, is_ident,
    new_opc_command, positionals_of, CommandSpec, CommandSpecView, DeclToken,
};
use crate::parse::{ParseError, ParseErrorView, ParseOutcome, ParseOutcomeView};
use crate::record::{CommandRecord, CommandRecordView};
use crate::shape::{compiled, sopc_derive, CommandShape, CommandShapeView};
use crate::text::{ascii_lowercase, trim_leading, trim_trailing, unquote};
use vstd::pervasive::unreached;
use vstd::prelude::*;
use vstd::string::*;

verus! {

/// The keyword of the help command.
pub open spec fn help_keyword() -> Seq<char> {
    "help"@
}

/// The shape of the help command: one positional, the command to describe,
/// and no flags.
pub open spec fn help_shape() -> CommandShapeView {
    CommandShapeView { keyword: help_keyword(), positionals: seq!["cmd"@], flags: Seq::empty() }
}

/// The declaration of the help command is accepted and compiles to
/// [`help_shape`].
proof fn lemma_help_declaration(body: Seq<DeclToken>)
    requires
        body.len() == 2,
        body[0] is Literal,
        body[0]->Literal_0@ == "\"help\""@,
        body[1] is Ident,
        body[1]->Ident_0@ == "cmd"@,
    ensures
        declaration_error(body) is None,
        compiled(declared(body)) == help_shape(),
{
    let quoted = "\"help\""@;
    let cmd = "cmd"@;
    reveal_strlit("\"help\"");
    reveal_strlit("help");
    reveal_strlit("cmd");
    assert(unquote(quoted) == help_keyword()) by {
        reveal_with_fuel(trim_leading, 2);
        reveal_with_fuel(trim_trailing, 2);
    }
    assert(ascii_lowercase(help_keyword()) =~= help_keyword());
    let clauses = body.skip(1);
    assert(clauses =~= Seq::<DeclToken>::empty().push(body[1]));
    assert(first_clause_error(clauses) is None) by {
        reveal_with_fuel(first_clause_error, 2);
    }
    assert(positionals_of(clauses) =~= seq![cmd]) by {
        reveal(Seq::filter);
        Seq::<DeclToken>::empty().lemma_filter_push(body[1], is_ident());
    }
    assert(flag_groups_of(clauses) =~= Seq::empty()) by {
        reveal(Seq::filter);
        Seq::<DeclToken>::empty().lemma_filter_push(body[1], is_group());
    }
}

/// Declares and compiles the help command.
fn help_command() -> (shape: CommandShape)
    ensures
        shape@ == help_shape(),
{
    let mut body: Vec<DeclToken> = Vec::new();
    body.push(DeclToken::Literal(String::from_str("\"help\"")));
    body.push(DeclToken::Ident(String::from_str("cmd")));
    proof {
        lemma_help_declaration(body@);
    }
    match new_opc_command(&body) {
        Ok(spec) => sopc_derive(&spec),
        Err(_) => unreached(),
    }
}

/// The header of the help listing.
pub open spec fn listing_header() -> Seq<char> {
    "Available commands:"@
}

/// What the help command answers for a keyword that no command has.
pub open spec fn unknown_help() -> Seq<char> {
    "Unknown Command!"@
}

/// What is reported where no candidate has the invocation's keyword.
pub open spec fn unknown_command() -> Seq<char> {
    "Unknown command! Use 'opc help' for further information"@
}

/// The banner that an invocation without tokens is answered with.
pub open spec fn banner(version: Seq<char>) -> Seq<char> {
    "OUTLINE Plugin Creator "@ + version + " installed"@
}

/// The lines joined by line feeds, with none after the last.
pub open spec fn join_lines(lines: Seq<Seq<char>>) -> Seq<char>
    decreases lines.len(),
{
    if lines.len() == 0 {
        Seq::empty()
    } else if lines.len() == 1 {
        lines[0]
    } else {
        join_lines(lines.drop_last()) + seq!['\n'] + lines.last()
    }
}

/// A declared command, as a mathematical value.
pub struct CommandView {
    pub spec: CommandSpecView,
    pub help: Seq<char>,
}

impl CommandView {
    /// The shape of the command's record.
    pub open spec fn shape(self) -> CommandShapeView {
        compiled(self.spec)
    }
}

/// The keyword of a declared command.
pub open spec fn command_keyword() -> spec_fn(CommandView) -> Seq<char> {
    |c: CommandView| c.shape().keyword
}

/// The help text of the first of the commands whose keyword is `keyword`.
pub open spec fn help_of(commands: Seq<CommandView>, keyword: Seq<char>) -> Option<Seq<char>>
    decreases commands.len(),
{
    if commands.len() == 0 {
        None
    } else if commands[0].shape().keyword == keyword {
        Some(commands[0].help)
    } else {
        help_of(commands.skip(1), keyword)
    }
}

/// The action that an invocation resolves to, as a mathematical value.
pub enum DispatchView {
    Banner(Seq<char>),
    Help(Seq<char>),
    Failed(ParseErrorView),
    Run(int, CommandRecordView),
    Unknown,
}

impl DispatchView {
    /// The text to report, for every action but the run of a declared
    /// command.
    pub open spec fn report(self) -> Option<Seq<char>> {
        match self {
            DispatchView::Banner(text) => Some(text),
            DispatchView::Help(text) => Some(text),
            DispatchView::Failed(e) => Some(e.message()),
            DispatchView::Run(_, _) => None,
            DispatchView::Unknown => Some(unknown_command()),
        }
    }
}

/// A dispatcher, as a mathematical value.
pub struct DispatcherView {
    pub version: Seq<char>,
    pub commands: Seq<CommandView>,
}

impl DispatcherView {
    /// The keywords of the declared commands, in declaration order.
    pub open spec fn keywords(self) -> Seq<Seq<char>> {
        self.commands.map_values(command_keyword())
    }

    /// The lines of the help listing: the header, the help command, and the
    /// declared commands in declaration order.
    pub open spec fn listing_lines(self) -> Seq<Seq<char>> {
        seq![listing_header(), help_keyword()] + self.keywords()
    }

    /// The help listing.
    pub open spec fn listing(self) -> Seq<char> {
        join_lines(self.listing_lines())
    }

    /// What the help command answers when asked about `cmd`: the listing for
    /// its own keyword, else the help text of the first declared command with
    /// that keyword, else a fixed refusal.
    pub open spec fn help_for(self, cmd: Seq<char>) -> Seq<char> {
        if cmd == help_keyword() {
            self.listing()
        } else {
            match help_of(self.commands, cmd) {
                Some(text) => text,
                None => unknown_help(),
            }
        }
    }

    /// What the declared commands from place `from` on resolve `tokens` to:
    /// the outcome of the first that does not pass the invocation on.
    pub open spec fn resolve(self, tokens: Seq<Seq<char>>, from: int) -> DispatchView
        decreases self.commands.len() - from,
    {
        if from < 0 || from >= self.commands.len() {
            DispatchView::Unknown
        } else {
            match self.commands[from].shape().parse(tokens) {
                ParseOutcomeView::NotThisCommand => self.resolve(tokens, from + 1),
                ParseOutcomeView::Error(e) => DispatchView::Failed(e),
                ParseOutcomeView::Parsed(record) => DispatchView::Run(from, record),
            }
        }
    }

    /// What an invocation resolves to. Without tokens it is the banner, and
    /// the help keyword alone asks for the listing. Otherwise the help
    /// command is tried first, which answers for the command that its one
    /// field names, and then the declared commands in order.
    pub open spec fn dispatch(self, tokens: Seq<Seq<char>>) -> DispatchView {
        if tokens.len() == 0 {
            DispatchView::Banner(banner(self.version))
        } else if tokens.len() == 1 && tokens[0] == help_keyword() {
            DispatchView::Help(self.listing())
        } else {
            match help_shape().parse(tokens) {
                ParseOutcomeView::NotThisCommand => self.resolve(tokens, 0),
                ParseOutcomeView::Error(e) => DispatchView::Failed(e),
                ParseOutcomeView::Parsed(record) => DispatchView::Help(
                    self.help_for(record.positionals[0].value),
                ),
            }
        }
    }
}

/// A declared command as the dispatcher holds it: its description, the record
/// shape compiled from it, and its help text.
#[derive(Debug)]
pub struct Command {
    spec: CommandSpec,
    shape: CommandShape,
    help: String,
}

impl View for Command {
    type V = CommandView;

    closed spec fn view(&self) -> CommandView {
        CommandView { spec: self.spec@, help: self.help@ }
    }
}

impl DeepView for Command {
    type V = CommandView;

    open spec fn deep_view(&self) -> CommandView {
        self@
    }
}

impl Command {
    #[verifier::type_invariant]
    spec fn well_formed(self) -> bool {
        self.shape@ == compiled(self.spec@)
    }

    /// The command with the given description and help text. Its record shape
    /// is compiled here.
    pub fn new(spec: CommandSpec, help: String) -> (command: Command)
        ensures
            command@ == (CommandView { spec: spec@, help: help@ }),
    {
        let shape = sopc_derive(&spec);
        Command { spec, shape, help }
    }

    /// The command's description.
    pub fn spec(&self) -> (spec: &CommandSpec)
        ensures
            spec@ == self@.spec,
    {
        &self.spec
    }

    /// The command's record shape.
    pub fn shape(&self) -> (shape: &CommandShape)
        ensures
            shape@ == self@.shape(),
    {
        proof {
            use_type_invariant(self);
        }
        &self.shape
    }

    /// The command's help text.
    pub fn help(&self) -> (help: &String)
        ensures
            help@ == self@.help,
    {
        &self.help
    }
}

/// The action that an invocation resolves to.
#[derive(Clone, Debug, PartialEq, Eq)]
pub enum Dispatch {
    /// There was no token: the banner is to be reported.
    Banner(String),
    /// The help command ran: its answer is to be reported.
    Help(String),
    /// A candidate refused the invocation, and no other is tried.
    Failed(ParseError),
    /// The declared command at this place is to run with this record.
    Run(usize, CommandRecord),
    /// No candidate has the invocation's keyword.
    Unknown,
}

impl View for Dispatch {
    type V = DispatchView;

    open spec fn view(&self) -> DispatchView {
        match self {
            Dispatch::Banner(text) => DispatchView::Banner(text@),
            Dispatch::Help(text) => DispatchView::Help(text@),
            Dispatch::Failed(e) => DispatchView::Failed(e@),
            Dispatch::Run(index, record) => DispatchView::Run(*index as int, record@),
            Dispatch::Unknown => DispatchView::Unknown,
        }
    }
}

impl Dispatch {
    /// The text to report, for every action but the run of a declared
    /// command.
    pub fn report(&self) -> (text: Option<String>)
        ensures
            match text {
                Some(t) => self@.report() == Some(t@),
                None => self@.report() is None,
            },
    {
        match self {
            Dispatch::Banner(text) => Some(text.clone()),
            Dispatch::Help(text) => Some(text.clone()),
            Dispatch::Failed(e) => Some(e.message()),
            Dispatch::Run(_, _) => None,
            Dispatch::Unknown => Some(
                String::from_str("Unknown command! Use 'opc help' for further information"),
            ),
        }
    }
}

/// The ordered list of declared commands, with the help command that
/// describes them.
#[derive(Debug)]
pub struct Dispatcher {
    version: String,
    help: CommandShape,
    commands: Vec<Command>,
}

impl View for Dispatcher {
    type V = DispatcherView;

    closed spec fn view(&self) -> DispatcherView {
        DispatcherView { version: self.version@, commands: self.commands.deep_view() }
    }
}

/// Builds the dispatcher for the commands, in the order given. The help
/// command is declared and compiled like any other.
pub fn serve_opc(commands: Vec<Command>, version: String) -> (dispatcher: Dispatcher)
    ensures
        dispatcher@ == (DispatcherView { version: version@, commands: commands.deep_view() }),
{
    Dispatcher { version, help: help_command(), commands }
}

impl Dispatcher {
    #[verifier::type_invariant]
    spec fn well_formed(self) -> bool {
        self.help@ == help_shape()
    }

    /// The declared commands, in declaration order.
    pub fn commands(&self) -> (commands: &Vec<Command>)
        ensures
            commands.deep_view() == self@.commands,
    {
        &self.commands
    }

    /// The version that the banner names.
    pub fn version(&self) -> (version: &String)
        ensures
            version@ == self@.version,
    {
        &self.version
    }

    /// The banner that an invocation without tokens is answered with.
    pub fn banner(&self) -> (text: String)
        ensures
            text@ == banner(self@.version),
    {
        let mut text = String::from_str("OUTLINE Plugin Creator ");
        text.append(self.version.as_str());
        text.append(" installed");
        text
    }

    /// The help listing: the header, then one line for the help command and
    /// one for each declared command, in declaration order.
    pub fn help(&self) -> (text: String)
        ensures
            text@ == self@.listing(),
    {
        let ghost lines = self@.listing_lines();
        let mut text = String::from_str("Available commands:");
        text.append("\n");
        text.append("help");
        proof {
            reveal_strlit("\n");
            reveal_with_fuel(join_lines, 3);
        }
        let mut i: usize = 0;
        while i < self.commands.len()
            invariant
                i <= self.commands.len(),
                lines == self@.listing_lines(),
                text@ == join_lines(lines.take(i + 2)),
            decreases self.commands.len() - i,
        {
            text.append("\n");
            text.append(self.commands[i].shape().keyword().as_str());
            proof {
                reveal_strlit("\n");
                assert(lines.take(i + 3).drop_last() =~= lines.take(i + 2));
            }
            i += 1;
        }
        assert(lines.take(i + 2) =~= lines);
        text
    }

    /// What the help command answers when asked about `cmd`.
    pub fn run_help(&self, cmd: &str) -> (text: String)
        ensures
            text@ == self@.help_for(cmd@),
    {
        let wanted = String::from_str(cmd);
        if wanted == String::from_str("help") {
            return self.help();
        }
        let mut i: usize = 0;
        assert(self@.commands.skip(0) =~= self@.commands);
        while i < self.commands.len()
            invariant
                i <= self.commands.len(),
                wanted@ == cmd@,
                cmd@ != help_keyword(),
                help_of(self@.commands, cmd@) == help_of(self@.commands.skip(i as int), cmd@),
            decreases self.commands.len() - i,
        {
            assert(self@.commands.skip(i as int).skip(1) =~= self@.commands.skip(i + 1));
            if *self.commands[i].shape().keyword() == wanted {
                return self.commands[i].help.clone();
            }
            i += 1;
        }
        String::from_str("Unknown Command!")
    }

    /// Resolves one invocation, keyword included, to one action.
    pub fn dispatch(&self, args: &Vec<String>) -> (action: Dispatch)
        ensures
            action@ == self@.dispatch(args.deep_view()),
    {
        proof {
            use_type_invariant(self);
        }
        let ghost tokens = args.deep_view();
        if args.len() == 0 {
            return Dispatch::Banner(self.banner());
        }
        if args.len() == 1 && args[0] == String::from_str("help") {
            return Dispatch::Help(self.help());
        }
        match self.help.parse(args) {
            ParseOutcome::Error(e) => {
                return Dispatch::Failed(e);
            },
            ParseOutcome::Parsed(record) => {
                let fields = record.positionals();
                assert(fields.deep_view().len() == 1);
                let cmd = fields[0].value();
                return Dispatch::Help(self.run_help(cmd.as_str()));
            },
            ParseOutcome::NotThisCommand => {},
        }
        let mut i: usize = 0;
        while i < self.commands.len()
            invariant
                i <= self.commands.len(),
                tokens == args.deep_view(),
                self@.dispatch(tokens) == self@.resolve(tokens, 0),
                self@.resolve(tokens, 0) == self@.resolve(tokens, i as int),
            decreases self.commands.len() - i,
        {
            match self.commands[i].shape().parse(args) {
                ParseOutcome::NotThisCommand => {},
                ParseOutcome::Error(e) => {
                    return Dispatch::Failed(e);
                },
                ParseOutcome::Parsed(record) => {
                    return Dispatch::Run(i, record);
                },
            }
            i += 1;
        }
        Dispatch::Unknown
    }
}

} // verus!
