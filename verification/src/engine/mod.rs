//! The commands of the engine and the typed result that each produces.

pub mod at;
pub mod change;
pub mod info;
pub mod schema;
pub mod scope;
pub mod signal;
pub mod when;

use vstd::prelude::*;
use vstd::string::StringExecFns;
use crate::cli;
use crate::error::{ErrorView, WavepeekError};
use crate::text::string_views;
use crate::waveform::DumpFile;

verus! {

/// A command with its arguments, as the engine runs it.
#[derive(Debug)]
pub enum Command {
    Schema(cli::schema::SchemaArgs),
    Info(cli::info::InfoArgs),
    Scope(cli::scope::ScopeArgs),
    Signal(cli::signal::SignalArgs),
    At(cli::at::AtArgs),
    Change(cli::change::ChangeArgs),
    When(cli::when::WhenArgs),
}

/// The commands that produce a result.
#[derive(Debug, Clone, Copy, PartialEq, Eq, Structural)]
pub enum CommandName {
    Schema,
    Info,
    Scope,
    Signal,
}

/// The name of each command, as the structured output gives it.
pub open spec fn command_name_text(name: CommandName) -> Seq<char> {
    match name {
        CommandName::Schema => "schema"@,
        CommandName::Info => "info"@,
        CommandName::Scope => "scope"@,
        CommandName::Signal => "signal"@,
    }
}

impl CommandName {
    /// The name of this command.
    pub fn as_str(self) -> (r: &'static str)
        ensures
            r@ == command_name_text(self),
    {
        match self {
            CommandName::Schema => "schema",
            CommandName::Info => "info",
            CommandName::Scope => "scope",
            CommandName::Signal => "signal",
        }
    }
}

/// How a result is rendered for a human reader.
#[derive(Debug, Clone, Copy)]
pub struct HumanRenderOptions {
    /// Draw scopes as a tree instead of a flat list.
    pub scope_tree: bool,
    /// Show signals by their full path instead of their name.
    pub signals_abs: bool,
}

impl Default for HumanRenderOptions {
    fn default() -> (r: HumanRenderOptions)
        ensures
            r == (HumanRenderOptions { scope_tree: false, signals_abs: false }),
    {
        HumanRenderOptions { scope_tree: false, signals_abs: false }
    }
}

/// The typed data of a result.
#[derive(Debug)]
pub enum CommandData {
    Schema(String),
    Info(info::InfoData),
    Scope(Vec<scope::ScopeEntry>),
    Signal(Vec<signal::SignalEntry>),
}

/// The mathematical value of a `CommandData`.
pub enum DataView {
    Schema(Seq<char>),
    Info(info::InfoView),
    Scope(Seq<scope::ScopeRow>),
    Signal(Seq<signal::SignalRow>),
}

impl View for CommandData {
    type V = DataView;

    open spec fn view(&self) -> DataView {
        match self {
            CommandData::Schema(text) => DataView::Schema(text@),
            CommandData::Info(info) => DataView::Info(info@),
            CommandData::Scope(entries) => DataView::Scope(scope::scope_rows(entries@)),
            CommandData::Signal(entries) => DataView::Signal(signal::signal_rows(entries@)),
        }
    }
}

/// What a command hands to the renderer.
#[derive(Debug)]
pub struct CommandResult {
    /// The command that produced the result.
    pub command: CommandName,
    /// Structured output if set, human-readable output otherwise.
    pub json: bool,
    /// The options of the human-readable rendering.
    pub human_options: HumanRenderOptions,
    /// The data.
    pub data: CommandData,
    /// The warnings that came up while the data was made.
    pub warnings: Vec<String>,
}

/// The mathematical value of a `CommandResult`.
pub struct ResultView {
    pub command: CommandName,
    pub json: bool,
    pub human_options: HumanRenderOptions,
    pub data: DataView,
    pub warnings: Seq<Seq<char>>,
}

impl View for CommandResult {
    type V = ResultView;

    open spec fn view(&self) -> ResultView {
        ResultView {
            command: self.command,
            json: self.json,
            human_options: self.human_options,
            data: self.data@,
            warnings: string_views(self.warnings@),
        }
    }
}

/// The failure reported for a command that has no execution path yet.
pub open spec fn unimplemented_failure(command: Seq<char>) -> ErrorView {
    ErrorView::Unimplemented("`"@ + command + "` command execution is not implemented yet"@)
}

/// The Unimplemented error that names `command`.
pub fn unimplemented(command: &str) -> (r: WavepeekError)
    ensures
        r@ == unimplemented_failure(command@),
{
    let mut message = std::string::String::new();
    message.push('`');
    message.append(command);
    message.append("` command execution is not implemented yet");
    proof {
        reveal_strlit("`");
        assert(Seq::<char>::empty().push('`') =~= "`"@);
    }
    WavepeekError::Unimplemented(message)
}

impl Command {
    /// The path of the dump that the command reads, for the commands that
    /// read one.
    pub fn waves(&self) -> (r: Option<&str>)
        ensures
            r matches Some(path) ==> path@ == dump_path(*self).unwrap(),
            r is Some == dump_path(*self) is Some,
    {
        match self {
            Command::Info(args) => Some(args.waves.as_str()),
            Command::Scope(args) => Some(args.waves.as_str()),
            Command::Signal(args) => Some(args.waves.as_str()),
            _ => None,
        }
    }
}

/// The path of the dump that a command reads: `info`, `scope` and `signal`
/// read the dump at `--waves`; the other commands read none.
pub open spec fn dump_path(command: Command) -> Option<Seq<char>> {
    match command {
        Command::Info(args) => Some(args.waves@),
        Command::Scope(args) => Some(args.waves@),
        Command::Signal(args) => Some(args.waves@),
        _ => None,
    }
}

/// A command that is ready to run: its arguments have been checked, and
/// its filter, where it has one, has been compiled.
#[derive(Debug)]
pub enum Plan {
    Schema(cli::schema::SchemaArgs),
    Info(cli::info::InfoArgs),
    Scope(cli::scope::ScopeArgs, regex::Regex),
    Signal(cli::signal::SignalArgs, regex::Regex),
}

/// The failure that `plan` finds in a command, if any: the Args failure
/// of the cap or of the filter of `scope` and `signal`, and the
/// Unimplemented failure of the commands that have no execution path.
pub open spec fn plan_refusal(command: Command) -> Option<ErrorView> {
    match command {
        Command::Schema(_) => None,
        Command::Info(_) => None,
        Command::Scope(args) => crate::shape::filter_refusal(args.max, args.filter@, "scope"@),
        Command::Signal(args) => crate::shape::filter_refusal(args.max, args.filter@, "signal"@),
        Command::At(_) => Some(unimplemented_failure("at"@)),
        Command::Change(_) => Some(unimplemented_failure("change"@)),
        Command::When(_) => Some(unimplemented_failure("when"@)),
    }
}

/// Whether `plan` is the plan of `command`: the same command with the
/// same arguments, and with a filter that matches as the command's
/// pattern says.
pub open spec fn plan_of(command: Command, plan: Plan) -> bool {
    match (command, plan) {
        (Command::Schema(args), Plan::Schema(ready)) => ready == args,
        (Command::Info(args), Plan::Info(ready)) => ready == args,
        (Command::Scope(args), Plan::Scope(ready, filter)) => ready == args
            && crate::shape::regex_language(filter) == crate::shape::pattern_language(
            args.filter@,
        ),
        (Command::Signal(args), Plan::Signal(ready, filter)) => ready == args
            && crate::shape::regex_language(filter) == crate::shape::pattern_language(
            args.filter@,
        ),
        _ => false,
    }
}

/// What `plan` promises of its outcome `r`: it fails exactly where
/// `plan_refusal` finds a failure, with that failure, and otherwise gives
/// the plan of the command.
pub open spec fn planned(command: Command, r: Result<Plan, WavepeekError>) -> bool {
    match r {
        Ok(plan) => plan_refusal(command) is None && plan_of(command, plan),
        Err(e) => plan_refusal(command) == Some(e@),
    }
}

/// What `execute` gives, plan by plan.
pub open spec fn execute_outcome(plan: Plan, file: DumpFile) -> Result<ResultView, ErrorView> {
    match plan {
        Plan::Schema(_) => Ok(schema::schema_report()),
        Plan::Info(args) => info::run_outcome(args, file),
        Plan::Scope(args, filter) => scope::execute_outcome(
            args,
            crate::shape::regex_language(filter),
            file,
        ),
        Plan::Signal(args, filter) => signal::execute_outcome(
            args,
            crate::shape::regex_language(filter),
            file,
        ),
    }
}

/// What `run` gives, command by command.
pub open spec fn run_outcome(command: Command, file: DumpFile) -> Result<ResultView, ErrorView> {
    match command {
        Command::Schema(_) => Ok(schema::schema_report()),
        Command::Info(args) => info::run_outcome(args, file),
        Command::Scope(args) => scope::run_outcome(args, file),
        Command::Signal(args) => signal::run_outcome(args, file),
        Command::At(_) => Err(unimplemented_failure("at"@)),
        Command::Change(_) => Err(unimplemented_failure("change"@)),
        Command::When(_) => Err(unimplemented_failure("when"@)),
    }
}

/// Checks a command before any dump is touched. Argument errors and
/// unimplemented commands are found here.
pub fn plan(command: Command) -> (r: Result<Plan, WavepeekError>)
    ensures
        planned(command, r),
{
    match command {
        Command::Schema(args) => Ok(Plan::Schema(args)),
        Command::Info(args) => Ok(Plan::Info(args)),
        Command::Scope(args) => match scope::prepare(&args) {
            Ok(filter) => Ok(Plan::Scope(args, filter)),
            Err(error) => Err(error),
        },
        Command::Signal(args) => match signal::prepare(&args) {
            Ok(filter) => Ok(Plan::Signal(args, filter)),
            Err(error) => Err(error),
        },
        Command::At(args) => match at::run(args) {
            Ok(_) => vstd::pervasive::unreached(),
            Err(error) => Err(error),
        },
        Command::Change(args) => match change::run(args) {
            Ok(_) => vstd::pervasive::unreached(),
            Err(error) => Err(error),
        },
        Command::When(args) => match when::run(args) {
            Ok(_) => vstd::pervasive::unreached(),
            Err(error) => Err(error),
        },
    }
}

impl Plan {
    /// The path of the dump that the plan reads, where it reads one.
    pub fn waves(&self) -> (r: Option<&str>)
        ensures
            match self {
                Plan::Schema(_) => r is None,
                Plan::Info(args) => r matches Some(path) && path@ == args.waves@,
                Plan::Scope(args, _) => r matches Some(path) && path@ == args.waves@,
                Plan::Signal(args, _) => r matches Some(path) && path@ == args.waves@,
            },
    {
        match self {
            Plan::Schema(_) => None,
            Plan::Info(args) => Some(args.waves.as_str()),
            Plan::Scope(args, _) => Some(args.waves.as_str()),
            Plan::Signal(args, _) => Some(args.waves.as_str()),
        }
    }
}

/// Runs a plan. `file` is what reading the dump at `--waves` gave; a plan
/// that reads no dump does not look at it. File and Scope errors are found
/// here.
pub fn execute(plan: Plan, file: DumpFile) -> (r: Result<CommandResult, WavepeekError>)
    ensures
        crate::error::outcome_view(r) == execute_outcome(plan, file),
{
    match plan {
        Plan::Schema(args) => schema::run(args),
        Plan::Info(args) => info::run(args, file),
        Plan::Scope(args, filter) => scope::execute(args, filter, file),
        Plan::Signal(args, filter) => signal::execute(args, filter, file),
    }
}

/// Runs a command: first `plan`, then `execute`. `file` is what reading
/// the dump at `--waves` gave; the commands that read no dump do not look
/// at it.
pub fn run(command: Command, file: DumpFile) -> (r: Result<CommandResult, WavepeekError>)
    ensures
        crate::error::outcome_view(r) == run_outcome(command, file),
{
    match plan(command) {
        Err(error) => Err(error),
        Ok(ready) => execute(ready, file),
    }
}

} // verus!
