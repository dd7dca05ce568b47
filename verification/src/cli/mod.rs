//! The command line as plain values: the arguments of each command, and the
//! way from a parsed command line to the engine.

pub mod at;
pub mod change;
pub mod info;
pub mod schema;
pub mod scope;
pub mod signal;
pub mod when;

use vstd::prelude::*;
use vstd::string::StringExecFns;
use crate::engine::{Command as EngineCommand, CommandResult};
use crate::error::WavepeekError;
use crate::scan::{
    char_views, has_prefix, lemma_trim_keeps_prefix, lines, lines_of, same_chars, starts_with,
    strip_prefix, strip_prefix_of, strip_repeated, strip_repeated_prefix, trim, trim_start,
    trimmed, trimmed_start, words, words_of,
};
use crate::text::{from_chars, join, to_chars};
use crate::waveform::DumpFile;

verus! {

/// A parsed command line.
#[derive(Debug)]
pub struct Cli {
    pub command: Command,
}

/// The command that a command line names, with its arguments.
#[derive(Debug)]
pub enum Command {
    Schema(schema::SchemaArgs),
    Info(info::InfoArgs),
    Scope(scope::ScopeArgs),
    Signal(signal::SignalArgs),
    At(at::AtArgs),
    Change(change::ChangeArgs),
    When(when::WhenArgs),
}

/// The engine's command for a command of the command line: the same
/// command with the same arguments.
pub open spec fn engine_command_of(command: Command) -> EngineCommand {
    match command {
        Command::Schema(args) => EngineCommand::Schema(args),
        Command::Info(args) => EngineCommand::Info(args),
        Command::Scope(args) => EngineCommand::Scope(args),
        Command::Signal(args) => EngineCommand::Signal(args),
        Command::At(args) => EngineCommand::At(args),
        Command::Change(args) => EngineCommand::Change(args),
        Command::When(args) => EngineCommand::When(args),
    }
}

/// Hands a command of the command line to the engine unchanged.
pub fn into_engine_command(command: Command) -> (r: EngineCommand)
    ensures
        r == engine_command_of(command),
{
    match command {
        Command::Schema(args) => EngineCommand::Schema(args),
        Command::Info(args) => EngineCommand::Info(args),
        Command::Scope(args) => EngineCommand::Scope(args),
        Command::Signal(args) => EngineCommand::Signal(args),
        Command::At(args) => EngineCommand::At(args),
        Command::Change(args) => EngineCommand::Change(args),
        Command::When(args) => EngineCommand::When(args),
    }
}

/// Runs a command of the command line in the engine. `file` is what
/// reading the dump at `--waves` gave. What comes back is ready for the
/// renderer; nothing has been written.
pub fn dispatch(command: Command, file: DumpFile) -> (r: Result<CommandResult, WavepeekError>)
    ensures
        crate::error::outcome_view(r) == crate::engine::run_outcome(
            engine_command_of(command),
            file,
        ),
{
    let engine_command = into_engine_command(command);
    crate::engine::run(engine_command, file)
}

/// Whether a line opens the report of an error: behind its leading white
/// space stands `error:`.
pub open spec fn opens_error(line: Seq<char>) -> bool {
    has_prefix(trim_start(line), "error:"@)
}

/// Whether a line closes the detail of an error: trimmed, it begins with
/// `Usage:` or with `For more information`.
pub open spec fn closes_detail(line: Seq<char>) -> bool {
    has_prefix(trim(line), "Usage:"@) || has_prefix(trim(line), "For more information"@)
}

/// The index of the first line that opens the report of an error, or the
/// number of lines where none does.
pub open spec fn first_error_line(ls: Seq<Seq<char>>) -> int
    decreases ls.len(),
{
    if ls.len() == 0 {
        0
    } else if opens_error(ls[0]) {
        0
    } else {
        1 + first_error_line(ls.drop_first())
    }
}

/// What the opening line contributes to the detail: what follows `error:`,
/// trimmed, unless that is empty.
pub open spec fn head_chunk(line: Seq<char>) -> Seq<Seq<char>> {
    match strip_prefix(trim(line), "error:"@) {
        Some(rest) => if trim(rest).len() > 0 {
            seq![trim(rest)]
        } else {
            Seq::empty()
        },
        None => Seq::empty(),
    }
}

/// What the lines behind the opening line contribute to the detail: each
/// line trimmed, without the empty ones, up to the line that closes the
/// detail.
pub open spec fn body_chunks(ls: Seq<Seq<char>>) -> Seq<Seq<char>>
    decreases ls.len(),
{
    if ls.len() == 0 || closes_detail(ls[0]) {
        Seq::empty()
    } else if trim(ls[0]).len() > 0 {
        seq![trim(ls[0])] + body_chunks(ls.drop_first())
    } else {
        body_chunks(ls.drop_first())
    }
}

/// The first line that is not empty when trimmed, trimmed.
pub open spec fn first_nonblank(ls: Seq<Seq<char>>) -> Option<Seq<char>>
    decreases ls.len(),
{
    if ls.len() == 0 {
        None
    } else if trim(ls[0]).len() > 0 {
        Some(trim(ls[0]))
    } else {
        first_nonblank(ls.drop_first())
    }
}

/// The detail of a rendered argument error, on one line.
///
/// Where a line opens the report of an error, the detail is made of the
/// pieces of the report from that line up to the usage or the pointer to
/// more information, joined with single spaces. Where no line does, the
/// detail is the first line that is not blank, and `invalid arguments`
/// where every line is blank.
pub open spec fn error_detail(rendered: Seq<char>) -> Seq<char> {
    let ls = lines(rendered);
    let start = first_error_line(ls);
    if start < ls.len() {
        join(head_chunk(ls[start]) + body_chunks(ls.skip(start + 1)), " "@)
    } else {
        match first_nonblank(ls) {
            Some(line) => line,
            None => "invalid arguments"@,
        }
    }
}

/// The first line that, trimmed, begins with `Usage:`, trimmed.
pub open spec fn usage_line(ls: Seq<Seq<char>>) -> Option<Seq<char>>
    decreases ls.len(),
{
    if ls.len() == 0 {
        None
    } else if has_prefix(trim(ls[0]), "Usage:"@) {
        Some(trim(ls[0]))
    } else {
        usage_line(ls.drop_first())
    }
}

/// The hint that points to the help of the whole program.
pub open spec fn global_hint() -> Seq<char> {
    "See 'wavepeek --help'."@
}

/// Whether a word of the usage names no command: it begins with `[`, `<`
/// or `-`.
pub open spec fn names_no_command(word: Seq<char>) -> bool {
    word.len() > 0 && (word[0] == '[' || word[0] == '<' || word[0] == '-')
}

/// The hint for a usage line: where the usage reads `wavepeek <command>`,
/// the hint points to the help of the command; in every other case to the
/// help of the whole program.
pub open spec fn hint_for_usage(line: Seq<char>) -> Seq<char> {
    let parts = words(trim(strip_repeated(line, "Usage:"@)));
    if parts.len() < 2 || parts[0] != "wavepeek"@ || names_no_command(parts[1]) {
        global_hint()
    } else {
        "See 'wavepeek "@ + parts[1] + " --help'."@
    }
}

/// The hint that belongs to a rendered argument error.
pub open spec fn help_hint(rendered: Seq<char>) -> Seq<char> {
    match usage_line(lines(rendered)) {
        Some(line) => hint_for_usage(line),
        None => global_hint(),
    }
}

/// The chunks that the lines from `from` on contribute to the detail.
fn collect_body(ls: &Vec<Vec<char>>, from: usize, chunks: &mut Vec<String>)
    requires
        from <= ls.len(),
    ensures
        crate::text::string_views(final(chunks)@) == crate::text::string_views(old(chunks)@)
            + body_chunks(char_views(ls@).skip(from as int)),
{
    let ghost views = char_views(ls@);
    let ghost before = crate::text::string_views(chunks@);
    let usage = to_chars("Usage:");
    let more = to_chars("For more information");
    let mut i: usize = from;
    while i < ls.len()
        invariant
            from <= i <= ls.len(),
            views == char_views(ls@),
            before == crate::text::string_views(old(chunks)@),
            usage@ == "Usage:"@,
            more@ == "For more information"@,
            crate::text::string_views(chunks@) + body_chunks(views.skip(i as int)) == before
                + body_chunks(views.skip(from as int)),
        decreases ls.len() - i,
    {
        let line = trimmed(&ls[i]);
        proof {
            assert(views.skip(i as int)[0] == ls@[i as int]@);
            assert(views.skip(i as int).drop_first() =~= views.skip(i + 1));
        }
        if starts_with(&line, &usage) || starts_with(&line, &more) {
            proof {
                assert(closes_detail(views.skip(i as int)[0]));
                assert(body_chunks(views.skip(i as int)) =~= Seq::<Seq<char>>::empty());
                assert(crate::text::string_views(chunks@) =~= before + body_chunks(
                    views.skip(from as int),
                ));
            }
            return ;
        }
        if line.len() > 0 {
            let ghost earlier = crate::text::string_views(chunks@);
            chunks.push(from_chars(&line));
            proof {
                assert(crate::text::string_views(chunks@) =~= earlier.push(line@));
                assert(earlier.push(line@) + body_chunks(views.skip(i + 1)) =~= earlier + (seq![
                    line@,
                ] + body_chunks(views.skip(i + 1))));
            }
        }
        i += 1;
    }
    proof {
        assert(body_chunks(views.skip(ls.len() as int)) =~= Seq::<Seq<char>>::empty());
        assert(crate::text::string_views(chunks@) =~= before + body_chunks(
            views.skip(from as int),
        ));
    }
}

/// The first `i` lines do not open an error, and line `i` does or there
/// is none: then `i` is the first error line.
proof fn lemma_first_error_line(ls: Seq<Seq<char>>, i: int)
    requires
        0 <= i <= ls.len(),
        forall|k: int| 0 <= k < i ==> !opens_error(#[trigger] ls[k]),
        i == ls.len() || opens_error(ls[i]),
    ensures
        first_error_line(ls) == i,
    decreases i,
{
    if i > 0 {
        let rest = ls.drop_first();
        assert forall|k: int| 0 <= k < i - 1 implies !opens_error(#[trigger] rest[k]) by {
            assert(rest[k] == ls[k + 1]);
        }
        if i < ls.len() {
            assert(rest[i - 1] == ls[i]);
        }
        lemma_first_error_line(rest, i - 1);
    }
}

/// A line opens the report of an error exactly if, trimmed, it begins
/// with `error:`.
proof fn lemma_opens_error(line: Seq<char>)
    ensures
        opens_error(line) == (strip_prefix(trim(line), "error:"@) is Some),
{
    reveal_strlit("error:");
    assert("error:"@.last() == ':');
    lemma_trim_keeps_prefix(line, "error:"@);
}

/// Reduces a rendered argument error to its detail, on one line.
pub fn clap_error_detail(rendered: &str) -> (r: String)
    ensures
        r@ == error_detail(rendered@),
{
    let ls = lines_of(rendered);
    let ghost views = char_views(ls@);
    let lead = to_chars("error:");
    let mut start: usize = 0;
    while start < ls.len() && !starts_with(&trimmed_start(&ls[start]), &lead)
        invariant
            0 <= start <= ls.len(),
            views == char_views(ls@),
            lead@ == "error:"@,
            forall|k: int| 0 <= k < start ==> !opens_error(#[trigger] views[k]),
        decreases ls.len() - start,
    {
        proof {
            assert(views[start as int] == ls@[start as int]@);
        }
        start += 1;
    }
    proof {
        if start < ls.len() {
            assert(views[start as int] == ls@[start as int]@);
        }
        lemma_first_error_line(views, start as int);
    }
    let mut chunks: Vec<String> = Vec::new();
    if start < ls.len() {
        let line = trimmed(&ls[start]);
        match strip_prefix_of(&line, &lead) {
            Some(rest) => {
                let rest = trimmed(&rest);
                if rest.len() > 0 {
                    chunks.push(from_chars(&rest));
                }
            },
            None => {},
        }
        proof {
            assert(crate::text::string_views(chunks@) =~= head_chunk(views[start as int]));
        }
        collect_body(&ls, start + 1, &mut chunks);
    } else {
        proof {
            assert(crate::text::string_views(chunks@) =~= Seq::<Seq<char>>::empty());
        }
    }
    proof {
        assert(crate::text::string_views(chunks@).len() == chunks@.len());
    }
    if chunks.len() > 0 {
        return crate::text::join_strings(&chunks, " ");
    }
    let mut i: usize = 0;
    while i < ls.len()
        invariant
            0 <= i <= ls.len(),
            start <= ls.len(),
            views == char_views(ls@),
            views == lines(rendered@),
            lead@ == "error:"@,
            first_error_line(views) == start,
            start < ls.len() ==> head_chunk(views[start as int]).len() == 0 && body_chunks(
                views.skip(start + 1),
            ).len() == 0,
            forall|k: int| 0 <= k < i ==> !opens_error(#[trigger] views[k]),
        decreases ls.len() - i,
    {
        let line = trimmed(&ls[i]);
        proof {
            assert(views[i as int] == ls@[i as int]@);
            lemma_opens_error(views[i as int]);
        }
        match strip_prefix_of(&line, &lead) {
            Some(rest) => {
                proof {
                    lemma_first_error_line(views, i as int);
                    assert(head_chunk(views[i as int]).len() == 0);
                    assert(trim(rest@).len() == 0);
                    assert(head_chunk(views[i as int]) + body_chunks(views.skip(i + 1))
                        =~= Seq::<Seq<char>>::empty());
                    assert(trim(rest@) =~= Seq::<char>::empty());
                }
                return from_chars(&trimmed(&rest));
            },
            None => {},
        }
        i += 1;
    }
    proof {
        lemma_first_error_line(views, ls.len() as int);
        assert(views.skip(0) =~= views);
    }
    let mut j: usize = 0;
    while j < ls.len()
        invariant
            0 <= j <= ls.len(),
            views == char_views(ls@),
            views == lines(rendered@),
            first_error_line(views) == views.len(),
            first_nonblank(views) == first_nonblank(views.skip(j as int)),
        decreases ls.len() - j,
    {
        let line = trimmed(&ls[j]);
        proof {
            assert(views.skip(j as int)[0] == ls@[j as int]@);
            assert(views.skip(j as int).drop_first() =~= views.skip(j + 1));
        }
        if line.len() > 0 {
            return from_chars(&line);
        }
        j += 1;
    }
    String::from_str("invalid arguments")
}

/// The hint for a usage line.
fn hint_for_usage_line(line: &Vec<char>) -> (r: String)
    ensures
        r@ == hint_for_usage(line@),
{
    let lead = to_chars("Usage:");
    let usage = trimmed(&strip_repeated_prefix(line, &lead));
    let parts = words_of(&usage);
    let program = to_chars("wavepeek");
    proof {
        assert(char_views(parts@).len() == parts@.len());
    }
    if parts.len() < 2 {
        return String::from_str("See 'wavepeek --help'.");
    }
    proof {
        assert(char_views(parts@)[0] == parts@[0]@);
        assert(char_views(parts@)[1] == parts@[1]@);
    }
    if !same_chars(&parts[0], &program) {
        return String::from_str("See 'wavepeek --help'.");
    }
    let next = &parts[1];
    if next.len() > 0 && (next[0] == '[' || next[0] == '<' || next[0] == '-') {
        return String::from_str("See 'wavepeek --help'.");
    }
    let mut hint = String::from_str("See 'wavepeek ");
    hint.append(from_chars(next).as_str());
    hint.append(" --help'.");
    hint
}

/// The hint that belongs to a rendered argument error: it points to the
/// help of the command that the usage names, or to the help of the whole
/// program.
pub fn help_hint_for_rendered_clap_error(rendered: &str) -> (r: String)
    ensures
        r@ == help_hint(rendered@),
{
    let ls = lines_of(rendered);
    let ghost views = char_views(ls@);
    let lead = to_chars("Usage:");
    proof {
        assert(views.skip(0) =~= views);
    }
    let mut i: usize = 0;
    while i < ls.len()
        invariant
            0 <= i <= ls.len(),
            views == char_views(ls@),
            views == lines(rendered@),
            lead@ == "Usage:"@,
            usage_line(views) == usage_line(views.skip(i as int)),
        decreases ls.len() - i,
    {
        let line = trimmed(&ls[i]);
        proof {
            assert(views.skip(i as int)[0] == ls@[i as int]@);
            assert(views.skip(i as int).drop_first() =~= views.skip(i + 1));
        }
        if starts_with(&line, &lead) {
            return hint_for_usage_line(&line);
        }
        i += 1;
    }
    String::from_str("See 'wavepeek --help'.")
}

/// The message of the Args error for a rendered argument error: the
/// detail, a space, and the hint.
pub open spec fn normalized_error(rendered: Seq<char>) -> Seq<char> {
    error_detail(rendered) + " "@ + help_hint(rendered)
}

/// Reduces a rendered argument error to a single line with a hint.
pub fn normalize_clap_error(rendered: &str) -> (r: String)
    ensures
        r@ == normalized_error(rendered@),
{
    let mut message = clap_error_detail(rendered);
    let hint = help_hint_for_rendered_clap_error(rendered);
    message.append(" ");
    message.append(hint.as_str());
    message
}

} // verus!
