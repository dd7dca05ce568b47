//! The result shaper: the regular-expression filter and the cap on the
//! number of results.
//!
//! The regular expressions are those of the `regex` crate. The three
//! wrappers at the top of this file are trusted; what they claim is said
//! above each.

use vstd::prelude::*;
use vstd::string::StringExecFns;
use crate::error::{ErrorView, WavepeekError};
use crate::scan::{flat, flatten, holds_no, law_flat_is_single_line};
use crate::text::{decimal, push_decimal};

verus! {

/// `regex::Regex`, a compiled regular expression. Nothing inside it is
/// seen here.
#[verifier::external_type_specification]
#[verifier::external_body]
pub struct ExRegex(regex::Regex);

/// `regex::Error`, the error of the compiler of regular expressions.
/// Nothing inside it is seen here.
#[verifier::external_type_specification]
#[verifier::external_body]
pub struct ExRegexError(regex::Error);

/// What a compiled regular expression holds, as far as a filter reads it:
/// the texts in which it has a match.
pub uninterp spec fn regex_language(filter: regex::Regex) -> Set<Seq<char>>;

/// The texts in which the regular expression that `Regex::new` makes of
/// `pattern` has a match.
pub uninterp spec fn pattern_language(pattern: Seq<char>) -> Set<Seq<char>>;

/// Whether `Regex::new` accepts `pattern`.
pub uninterp spec fn pattern_accepted(pattern: Seq<char>) -> bool;

/// The words in which `Regex::new` refuses `pattern`, where it refuses it.
pub uninterp spec fn pattern_refusal(pattern: Seq<char>) -> Seq<char>;

/// The words that a `regex::Error` shows.
pub uninterp spec fn refusal_words(error: regex::Error) -> Seq<char>;

/// Calls `Regex::new`. Whether it accepts a pattern depends on the pattern
/// alone; a regular expression that it hands out matches as the pattern
/// alone says, and an error that it hands out shows words that depend on
/// the pattern alone.
#[verifier::external_body]
pub(crate) fn compile(pattern: &str) -> (r: Result<regex::Regex, regex::Error>)
    ensures
        r is Ok <==> pattern_accepted(pattern@),
        r matches Ok(filter) ==> regex_language(filter) == pattern_language(pattern@),
        r matches Err(error) ==> refusal_words(error) == pattern_refusal(pattern@),
{
    regex::Regex::new(pattern)
}

/// Calls `Regex::is_match`: whether the regular expression has a match
/// anywhere in `haystack`.
#[verifier::external_body]
pub(crate) fn is_match(filter: &regex::Regex, haystack: &str) -> (r: bool)
    ensures
        r == regex_language(*filter).contains(haystack@),
{
    filter.is_match(haystack)
}

/// Renders a `regex::Error` with its own `Display`: the words that the
/// error shows.
#[verifier::external_body]
pub(crate) fn describe(error: &regex::Error) -> (r: String)
    ensures
        r@ == refusal_words(*error),
{
    error.to_string()
}

/// The first `max` of `entries`, or all of them where there are no more
/// than `max`.
pub open spec fn capped<T>(entries: Seq<T>, max: nat) -> Seq<T> {
    if entries.len() > max {
        entries.take(max as int)
    } else {
        entries
    }
}

/// The warning that tells of a truncation to `max` entries.
pub open spec fn truncation_warning(max: nat) -> Seq<char> {
    "truncated output to "@ + decimal(max) + " entries (use --max to increase limit)"@
}

/// The warnings for a result of `count` entries under the cap `max`: one
/// truncation warning where the cap is exceeded, none otherwise.
pub open spec fn cap_warnings(count: nat, max: nat) -> Seq<Seq<char>> {
    if count > max {
        seq![truncation_warning(max)]
    } else {
        Seq::empty()
    }
}

/// The message of the Args error for a cap of zero, for the command
/// `command`.
pub open spec fn zero_max_message(command: Seq<char>) -> Seq<char> {
    "--max must be greater than 0. See 'wavepeek "@ + command + " --help'."@
}

/// The message of the Args error for a pattern that does not compile,
/// with the compiler's words `detail`: put together and then flattened, so
/// that it stays on a single line whatever the compiler says.
pub open spec fn invalid_regex_message(
    pattern: Seq<char>,
    detail: Seq<char>,
    command: Seq<char>,
) -> Seq<char> {
    flat(
        "invalid regex '"@ + pattern + "': "@ + detail + ". See 'wavepeek "@ + command
            + " --help'."@,
    )
}

/// Cuts `entries` down to their first `max` and returns the warnings that
/// this calls for: exactly one where entries were cut, none where all fit.
pub fn limit<T>(entries: &mut Vec<T>, max: usize) -> (warnings: Vec<String>)
    ensures
        final(entries)@ == capped(old(entries)@, max as nat),
        crate::text::string_views(warnings@) == cap_warnings(old(entries)@.len(), max as nat),
{
    let mut warnings: Vec<String> = Vec::new();
    if entries.len() > max {
        entries.truncate(max);
        let mut warning = String::from_str("truncated output to ");
        push_decimal(&mut warning, max as u64);
        warning.append(" entries (use --max to increase limit)");
        let ghost text = warning@;
        warnings.push(warning);
        proof {
            assert(crate::text::string_views(warnings@) =~= seq![text]);
        }
    } else {
        proof {
            assert(crate::text::string_views(warnings@) =~= Seq::<Seq<char>>::empty());
        }
    }
    warnings
}

/// The text of the Args error for a cap of zero.
pub fn zero_max_text(command: &str) -> (r: String)
    ensures
        r@ == zero_max_message(command@),
{
    let mut message = String::from_str("--max must be greater than 0. See 'wavepeek ");
    message.append(command);
    message.append(" --help'.");
    message
}

/// The text of the Args error for a pattern that does not compile.
pub fn invalid_regex_text(pattern: &str, detail: &str, command: &str) -> (r: String)
    ensures
        r@ == invalid_regex_message(pattern@, detail@, command@),
{
    let mut message = String::from_str("invalid regex '");
    message.append(pattern);
    message.append("': ");
    message.append(detail);
    message.append(". See 'wavepeek ");
    message.append(command);
    message.append(" --help'.");
    flatten(message.as_str())
}

/// The failure that stands in the way of a filter, if any: the Args error
/// for a cap of zero; otherwise, where the pattern is not accepted, the
/// Args error that carries the compiler's words on a single line.
pub open spec fn filter_refusal(max: usize, pattern: Seq<char>, command: Seq<char>) -> Option<
    ErrorView,
> {
    if max == 0 {
        Some(ErrorView::Args(zero_max_message(command)))
    } else if !pattern_accepted(pattern) {
        Some(ErrorView::Args(invalid_regex_message(pattern, pattern_refusal(pattern), command)))
    } else {
        None
    }
}

/// Checks the cap and compiles the filter of the command `command`, in
/// this order. It succeeds exactly where the cap is above zero and the
/// pattern is accepted, and the regular expression that comes back matches
/// as `pattern` says; otherwise it fails with `filter_refusal`.
pub fn prepare_filter(max: usize, pattern: &str, command: &str) -> (r: Result<
    regex::Regex,
    WavepeekError,
>)
    ensures
        match r {
            Ok(filter) => filter_refusal(max, pattern@, command@) is None && regex_language(filter)
                == pattern_language(pattern@),
            Err(e) => filter_refusal(max, pattern@, command@) == Some(e@),
        },
{
    if max == 0 {
        return Err(WavepeekError::Args(zero_max_text(command)));
    }
    match compile(pattern) {
        Ok(filter) => Ok(filter),
        Err(error) => {
            let detail = describe(&error);
            Err(WavepeekError::Args(invalid_regex_text(pattern, detail.as_str(), command)))
        },
    }
}

/// In a result of more entries than the cap, exactly the first `max`
/// entries stay and exactly one warning is given; in a result that fits,
/// every entry stays and no warning is given.
pub proof fn law_cap<T>(entries: Seq<T>, max: nat)
    ensures
        entries.len() > max ==> capped(entries, max).len() == max && capped(entries, max)
            == entries.take(max as int) && cap_warnings(entries.len(), max).len() == 1,
        entries.len() <= max ==> capped(entries, max) == entries && cap_warnings(
            entries.len(),
            max,
        ).len() == 0,
{
}

/// The Args error for a pattern that does not compile is a single line:
/// its message holds no line feed, whatever the compiler's words are.
pub proof fn law_invalid_regex_is_single_line(
    pattern: Seq<char>,
    detail: Seq<char>,
    command: Seq<char>,
)
    ensures
        holds_no(invalid_regex_message(pattern, detail, command), '\n'),
{
    law_flat_is_single_line(
        "invalid regex '"@ + pattern + "': "@ + detail + ". See 'wavepeek "@ + command
            + " --help'."@,
    );
}

} // verus!
