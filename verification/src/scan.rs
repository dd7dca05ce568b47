//! Scanning of rendered text: lines, blank space, prefixes and words, as
//! Rust's string slices define them, over sequences of characters.

use vstd::prelude::*;
use crate::text::{from_chars, join, join_strings, law_split_is_exact, split, split_on, string_views, to_chars};

verus! {

/// Whether `c` is white space: a character with the Unicode property
/// `White_Space`.
pub open spec fn is_blank(c: char) -> bool {
    ||| '\u{9}' <= c <= '\u{d}'
    ||| c == ' '
    ||| c == '\u{85}'
    ||| c == '\u{a0}'
    ||| c == '\u{1680}'
    ||| '\u{2000}' <= c <= '\u{200a}'
    ||| c == '\u{2028}'
    ||| c == '\u{2029}'
    ||| c == '\u{202f}'
    ||| c == '\u{205f}'
    ||| c == '\u{3000}'
}

/// `s` without its leading white space.
pub open spec fn trim_start(s: Seq<char>) -> Seq<char>
    decreases s.len(),
{
    if s.len() > 0 && is_blank(s[0]) {
        trim_start(s.drop_first())
    } else {
        s
    }
}

/// `s` without its trailing white space.
pub open spec fn trim_end(s: Seq<char>) -> Seq<char>
    decreases s.len(),
{
    if s.len() > 0 && is_blank(s.last()) {
        trim_end(s.drop_last())
    } else {
        s
    }
}

/// `s` without its leading and trailing white space.
pub open spec fn trim(s: Seq<char>) -> Seq<char> {
    trim_end(trim_start(s))
}

/// Whether `s` begins with `prefix`.
pub open spec fn has_prefix(s: Seq<char>, prefix: Seq<char>) -> bool {
    prefix.len() <= s.len() && s.take(prefix.len() as int) == prefix
}

/// `s` without `prefix` at its start, as often as it stands there.
pub open spec fn strip_repeated(s: Seq<char>, prefix: Seq<char>) -> Seq<char>
    decreases s.len(),
{
    if prefix.len() > 0 && has_prefix(s, prefix) {
        strip_repeated(s.skip(prefix.len() as int), prefix)
    } else {
        s
    }
}

/// `s` without one carriage return at its end.
pub open spec fn strip_cr(s: Seq<char>) -> Seq<char> {
    if s.len() > 0 && s.last() == '\r' {
        s.drop_last()
    } else {
        s
    }
}

/// The lines of `s`. A line ends at a line feed, or at a carriage return
/// directly before a line feed; the line ending is not part of the line.
/// What follows the last line feed is a line only if it is not empty.
pub open spec fn lines(s: Seq<char>) -> Seq<Seq<char>> {
    let segments = split_on(s, '\n');
    let ended = segments.drop_last().map_values(|line: Seq<char>| strip_cr(line));
    if segments.last().len() == 0 {
        ended
    } else {
        ended.push(segments.last())
    }
}

/// The state of cutting `s` into words: the words that have ended, and the
/// word that the end of `s` stands in, which is empty after white space.
pub open spec fn word_scan(s: Seq<char>) -> (Seq<Seq<char>>, Seq<char>)
    decreases s.len(),
{
    if s.len() == 0 {
        (Seq::empty(), Seq::empty())
    } else {
        let (done, open_word) = word_scan(s.drop_last());
        if is_blank(s.last()) {
            if open_word.len() > 0 {
                (done.push(open_word), Seq::empty())
            } else {
                (done, open_word)
            }
        } else {
            (done, open_word.push(s.last()))
        }
    }
}

/// The words of `s`: its maximal runs of characters that are not white
/// space, in order.
pub open spec fn words(s: Seq<char>) -> Seq<Seq<char>> {
    let (done, open_word) = word_scan(s);
    if open_word.len() > 0 {
        done.push(open_word)
    } else {
        done
    }
}

/// What follows `prefix` in `s`, where `s` begins with `prefix`.
pub open spec fn strip_prefix(s: Seq<char>, prefix: Seq<char>) -> Option<Seq<char>> {
    if has_prefix(s, prefix) {
        Some(s.skip(prefix.len() as int))
    } else {
        None
    }
}

/// The views of a list of character vectors.
pub open spec fn char_views(list: Seq<Vec<char>>) -> Seq<Seq<char>> {
    list.map_values(|v: Vec<char>| v@)
}

/// Whether `c` is white space.
pub fn char_is_blank(c: char) -> (r: bool)
    ensures
        r == is_blank(c),
{
    ('\u{9}' <= c && c <= '\u{d}') || c == ' ' || c == '\u{85}' || c == '\u{a0}' || c == '\u{1680}'
        || ('\u{2000}' <= c && c <= '\u{200a}') || c == '\u{2028}' || c == '\u{2029}' || c
        == '\u{202f}' || c == '\u{205f}' || c == '\u{3000}'
}

/// The characters of `v` from `from` up to, but not including, `to`.
pub fn slice_of(v: &Vec<char>, from: usize, to: usize) -> (r: Vec<char>)
    requires
        from <= to <= v.len(),
    ensures
        r@ == v@.subrange(from as int, to as int),
{
    let mut out: Vec<char> = Vec::new();
    let mut i: usize = from;
    while i < to
        invariant
            from <= i <= to <= v.len(),
            out@ == v@.subrange(from as int, i as int),
        decreases to - i,
    {
        out.push(v[i]);
        proof {
            assert(v@.subrange(from as int, i + 1) =~= v@.subrange(from as int, i as int).push(
                v@[i as int],
            ));
        }
        i += 1;
    }
    out
}

/// Leading white space of length `n` is what `trim_start` removes.
proof fn lemma_trim_start(s: Seq<char>, n: int)
    requires
        0 <= n <= s.len(),
        forall|k: int| 0 <= k < n ==> is_blank(#[trigger] s[k]),
        n == s.len() || !is_blank(s[n]),
    ensures
        trim_start(s) == s.skip(n),
    decreases n,
{
    if n == 0 {
        assert(s.skip(0) =~= s);
    } else {
        let rest = s.drop_first();
        assert forall|k: int| 0 <= k < n - 1 implies is_blank(#[trigger] rest[k]) by {
            assert(rest[k] == s[k + 1]);
        }
        lemma_trim_start(rest, n - 1);
        assert(rest.skip(n - 1) =~= s.skip(n));
    }
}

/// Trailing white space behind position `n` is what `trim_end` removes.
proof fn lemma_trim_end(s: Seq<char>, n: int)
    requires
        0 <= n <= s.len(),
        forall|k: int| n <= k < s.len() ==> is_blank(#[trigger] s[k]),
        n == 0 || !is_blank(s[n - 1]),
    ensures
        trim_end(s) == s.take(n),
    decreases s.len() - n,
{
    if n == s.len() {
        assert(s.take(n) =~= s);
    } else {
        let rest = s.drop_last();
        lemma_trim_end(rest, n);
        assert(rest.take(n) =~= s.take(n));
    }
}

/// What `trim_end` leaves is the front of the text.
pub proof fn lemma_trim_end_is_front(s: Seq<char>)
    ensures
        trim_end(s).len() <= s.len(),
        trim_end(s) == s.take(trim_end(s).len() as int),
    decreases s.len(),
{
    if s.len() > 0 && is_blank(s.last()) {
        lemma_trim_end_is_front(s.drop_last());
        assert(s.drop_last().take(trim_end(s).len() as int) =~= s.take(trim_end(s).len() as int));
    } else {
        assert(s.take(s.len() as int) =~= s);
    }
}

/// `trim_end` leaves a prefix in place that does not end in white space.
pub proof fn lemma_trim_end_keeps_prefix(s: Seq<char>, prefix: Seq<char>)
    requires
        has_prefix(s, prefix),
        prefix.len() > 0,
        !is_blank(prefix.last()),
    ensures
        has_prefix(trim_end(s), prefix),
    decreases s.len(),
{
    if s.len() > 0 && is_blank(s.last()) {
        assert(s.take(prefix.len() as int)[prefix.len() - 1] == prefix.last());
        if s.len() == prefix.len() {
            assert(s.last() == prefix.last());
        }
        assert(s.drop_last().take(prefix.len() as int) =~= s.take(prefix.len() as int));
        lemma_trim_end_keeps_prefix(s.drop_last(), prefix);
    }
}

/// A prefix that does not end in white space stands at the start of the
/// trimmed text exactly where it stands behind the leading white space.
pub proof fn lemma_trim_keeps_prefix(s: Seq<char>, prefix: Seq<char>)
    requires
        prefix.len() > 0,
        !is_blank(prefix.last()),
    ensures
        has_prefix(trim(s), prefix) == has_prefix(trim_start(s), prefix),
{
    let front = trim_start(s);
    if has_prefix(front, prefix) {
        lemma_trim_end_keeps_prefix(front, prefix);
    }
    if has_prefix(trim(s), prefix) {
        lemma_trim_end_is_front(front);
        assert(front.take(prefix.len() as int) =~= trim(s).take(prefix.len() as int));
    }
}

/// `v` without its leading and trailing white space.
pub fn trimmed(v: &Vec<char>) -> (r: Vec<char>)
    ensures
        r@ == trim(v@),
{
    let mut from: usize = 0;
    while from < v.len() && char_is_blank(v[from])
        invariant
            0 <= from <= v.len(),
            forall|k: int| 0 <= k < from ==> is_blank(#[trigger] v@[k]),
        decreases v.len() - from,
    {
        from += 1;
    }
    let mut to: usize = v.len();
    while to > from && char_is_blank(v[to - 1])
        invariant
            from <= to <= v.len(),
            forall|k: int| to <= k < v.len() ==> is_blank(#[trigger] v@[k]),
        decreases to,
    {
        to -= 1;
    }
    proof {
        lemma_trim_start(v@, from as int);
        let rest = v@.skip(from as int);
        assert forall|k: int| to - from <= k < rest.len() implies is_blank(#[trigger] rest[k]) by {
            assert(rest[k] == v@[k + from]);
        }
        if to > from {
            assert(rest[to - from - 1] == v@[to - 1]);
        } else if from < v.len() {
            assert(rest[0] == v@[from as int]);
        }
        lemma_trim_end(rest, to - from);
        assert(rest.take(to - from) =~= v@.subrange(from as int, to as int));
    }
    slice_of(v, from, to)
}

/// `v` without its leading white space.
pub fn trimmed_start(v: &Vec<char>) -> (r: Vec<char>)
    ensures
        r@ == trim_start(v@),
{
    let mut from: usize = 0;
    while from < v.len() && char_is_blank(v[from])
        invariant
            0 <= from <= v.len(),
            forall|k: int| 0 <= k < from ==> is_blank(#[trigger] v@[k]),
        decreases v.len() - from,
    {
        from += 1;
    }
    proof {
        lemma_trim_start(v@, from as int);
        assert(v@.skip(from as int) =~= v@.subrange(from as int, v@.len() as int));
    }
    slice_of(v, from, v.len())
}

/// Whether `v` begins with `prefix`.
pub fn starts_with(v: &Vec<char>, prefix: &Vec<char>) -> (r: bool)
    ensures
        r == has_prefix(v@, prefix@),
{
    if prefix.len() > v.len() {
        return false;
    }
    let mut i: usize = 0;
    while i < prefix.len()
        invariant
            0 <= i <= prefix.len() <= v.len(),
            v@.take(i as int) == prefix@.take(i as int),
        decreases prefix.len() - i,
    {
        if v[i] != prefix[i] {
            proof {
                assert(v@.take(prefix.len() as int)[i as int] != prefix@[i as int]);
            }
            return false;
        }
        proof {
            assert(v@.take(i + 1) =~= v@.take(i as int).push(v@[i as int]));
            assert(prefix@.take(i + 1) =~= prefix@.take(i as int).push(prefix@[i as int]));
        }
        i += 1;
    }
    proof {
        assert(prefix@.take(prefix.len() as int) =~= prefix@);
    }
    true
}

/// What follows `prefix` in `v`, where `v` begins with `prefix`.
pub fn strip_prefix_of(v: &Vec<char>, prefix: &Vec<char>) -> (r: Option<Vec<char>>)
    ensures
        match r {
            Some(rest) => strip_prefix(v@, prefix@) == Some(rest@),
            None => strip_prefix(v@, prefix@) is None,
        },
{
    if starts_with(v, prefix) {
        proof {
            assert(v@.skip(prefix.len() as int) =~= v@.subrange(
                prefix.len() as int,
                v@.len() as int,
            ));
        }
        Some(slice_of(v, prefix.len(), v.len()))
    } else {
        None
    }
}

/// Whether `a` and `b` hold the same characters.
pub fn same_chars(a: &Vec<char>, b: &Vec<char>) -> (r: bool)
    ensures
        r == (a@ == b@),
{
    if a.len() != b.len() {
        return false;
    }
    let same = starts_with(a, b);
    proof {
        assert(a@.take(b.len() as int) =~= a@);
    }
    same
}

/// `v` without `prefix` at its start, as often as it stands there.
pub fn strip_repeated_prefix(v: &Vec<char>, prefix: &Vec<char>) -> (r: Vec<char>)
    ensures
        r@ == strip_repeated(v@, prefix@),
{
    let mut rest = slice_of(v, 0, v.len());
    proof {
        assert(v@.subrange(0, v@.len() as int) =~= v@);
    }
    if prefix.len() == 0 {
        return rest;
    }
    while starts_with(&rest, prefix)
        invariant
            prefix.len() > 0,
            strip_repeated(v@, prefix@) == strip_repeated(rest@, prefix@),
        decreases rest.len(),
    {
        proof {
            assert(rest@.skip(prefix.len() as int) =~= rest@.subrange(
                prefix.len() as int,
                rest@.len() as int,
            ));
        }
        rest = slice_of(&rest, prefix.len(), rest.len());
    }
    rest
}

/// The lines of `s`.
pub fn lines_of(s: &str) -> (r: Vec<Vec<char>>)
    ensures
        char_views(r@) == lines(s@),
{
    let segments = split(s, '\n');
    let ghost views = string_views(segments@);
    proof {
        crate::text::lemma_split_nonempty(s@, '\n');
        assert(views.len() == segments@.len());
    }
    let mut out: Vec<Vec<char>> = Vec::new();
    let count = segments.len() - 1;
    let mut i: usize = 0;
    while i < count
        invariant
            0 <= i <= count,
            count + 1 == segments.len(),
            views == string_views(segments@),
            out@.len() == i,
            forall|k: int| 0 <= k < i ==> (#[trigger] out@[k])@ == strip_cr(views[k]),
        decreases count - i,
    {
        let mut line = to_chars(segments[i].as_str());
        proof {
            assert(views[i as int] == segments@[i as int]@);
        }
        if line.len() > 0 && line[line.len() - 1] == '\r' {
            line.pop();
        }
        out.push(line);
        i += 1;
    }
    let tail = to_chars(segments[count].as_str());
    proof {
        assert(views[count as int] == segments@[count as int]@);
        assert(views.last() == tail@);
        assert(char_views(out@) =~= views.drop_last().map_values(|line: Seq<char>| strip_cr(line)));
    }
    if tail.len() > 0 {
        let ghost ended = char_views(out@);
        out.push(tail);
        proof {
            assert(char_views(out@) =~= ended.push(views.last()));
        }
    }
    out
}

/// The words of `v`.
pub fn words_of(v: &Vec<char>) -> (r: Vec<Vec<char>>)
    ensures
        char_views(r@) == words(v@),
{
    let mut done: Vec<Vec<char>> = Vec::new();
    let mut open_word: Vec<char> = Vec::new();
    let mut i: usize = 0;
    while i < v.len()
        invariant
            0 <= i <= v.len(),
            (char_views(done@), open_word@) == word_scan(v@.take(i as int)),
        decreases v.len() - i,
    {
        let c = v[i];
        proof {
            assert(v@.take(i + 1).drop_last() =~= v@.take(i as int));
            assert(v@.take(i + 1).last() == c);
        }
        if char_is_blank(c) {
            if open_word.len() > 0 {
                let ghost earlier = char_views(done@);
                let ghost word = open_word@;
                done.push(open_word);
                open_word = Vec::new();
                proof {
                    assert(char_views(done@) =~= earlier.push(word));
                }
            }
        } else {
            open_word.push(c);
        }
        i += 1;
    }
    proof {
        assert(v@.take(v.len() as int) =~= v@);
    }
    if open_word.len() > 0 {
        let ghost earlier = char_views(done@);
        let ghost word = open_word@;
        done.push(open_word);
        proof {
            assert(char_views(done@) =~= earlier.push(word));
        }
    }
    done
}

/// The lines of `ls` that are not blank, each trimmed.
pub open spec fn trimmed_lines(ls: Seq<Seq<char>>) -> Seq<Seq<char>>
    decreases ls.len(),
{
    if ls.len() == 0 {
        Seq::empty()
    } else if trim(ls[0]).len() > 0 {
        seq![trim(ls[0])] + trimmed_lines(ls.drop_first())
    } else {
        trimmed_lines(ls.drop_first())
    }
}

/// `text` on a single line: its lines, trimmed and without the blank ones,
/// joined with single spaces.
pub open spec fn flat(text: Seq<char>) -> Seq<char> {
    join(trimmed_lines(lines(text)), " "@)
}

/// `s` holds the character `c` nowhere.
pub open spec fn holds_no(s: Seq<char>, c: char) -> bool {
    forall|i: int| 0 <= i < s.len() ==> #[trigger] s[i] != c
}

/// Puts `text` on a single line.
pub fn flatten(text: &str) -> (r: String)
    ensures
        r@ == flat(text@),
{
    let ls = lines_of(text);
    let ghost views = char_views(ls@);
    let mut chunks: Vec<String> = Vec::new();
    proof {
        assert(views.skip(0) =~= views);
        assert(string_views(chunks@) + trimmed_lines(views.skip(0)) =~= trimmed_lines(views));
    }
    let mut i: usize = 0;
    while i < ls.len()
        invariant
            0 <= i <= ls.len(),
            views == char_views(ls@),
            views == lines(text@),
            string_views(chunks@) + trimmed_lines(views.skip(i as int)) == trimmed_lines(views),
        decreases ls.len() - i,
    {
        let line = trimmed(&ls[i]);
        proof {
            assert(views.skip(i as int)[0] == ls@[i as int]@);
            assert(views.skip(i as int).drop_first() =~= views.skip(i + 1));
        }
        if line.len() > 0 {
            let ghost earlier = string_views(chunks@);
            chunks.push(from_chars(&line));
            proof {
                assert(string_views(chunks@) =~= earlier.push(line@));
                assert(earlier.push(line@) + trimmed_lines(views.skip(i + 1)) =~= earlier + (seq![
                    line@,
                ] + trimmed_lines(views.skip(i + 1))));
            }
        }
        i += 1;
    }
    proof {
        assert(trimmed_lines(views.skip(ls.len() as int)) =~= Seq::<Seq<char>>::empty());
        assert(string_views(chunks@) =~= trimmed_lines(views));
    }
    join_strings(&chunks, " ")
}

/// What `trim_start` leaves is the back of the text.
pub proof fn lemma_trim_start_is_back(s: Seq<char>)
    ensures
        trim_start(s).len() <= s.len(),
        trim_start(s) == s.skip(s.len() - trim_start(s).len()),
    decreases s.len(),
{
    if s.len() > 0 && is_blank(s[0]) {
        lemma_trim_start_is_back(s.drop_first());
        let rest = s.drop_first();
        assert(rest.skip(rest.len() - trim_start(rest).len()) =~= s.skip(
            s.len() - trim_start(s).len(),
        ));
    } else {
        assert(s.skip(0) =~= s);
    }
}

/// Trimming brings no character into a text.
pub proof fn lemma_trim_holds_no(s: Seq<char>, c: char)
    requires
        holds_no(s, c),
    ensures
        holds_no(trim(s), c),
{
    lemma_trim_start_is_back(s);
    lemma_trim_end_is_front(trim_start(s));
    let front = trim_start(s);
    let skipped = s.len() - front.len();
    assert forall|i: int| 0 <= i < trim(s).len() implies #[trigger] trim(s)[i] != c by {
        assert(trim(s)[i] == front.take(trim(s).len() as int)[i]);
        assert(front[i] == s.skip(skipped)[i]);
        assert(s.skip(skipped)[i] == s[i + skipped]);
    }
}

/// Joining brings in no character that neither a part nor the separator
/// holds.
pub proof fn lemma_join_holds_no(parts: Seq<Seq<char>>, sep: Seq<char>, c: char)
    requires
        holds_no(sep, c),
        forall|k: int| 0 <= k < parts.len() ==> holds_no(#[trigger] parts[k], c),
    ensures
        holds_no(join(parts, sep), c),
    decreases parts.len(),
{
    if parts.len() >= 2 {
        lemma_join_holds_no(parts.drop_last(), sep, c);
        let front = join(parts.drop_last(), sep);
        let whole = front + sep + parts.last();
        assert forall|i: int| 0 <= i < whole.len() implies #[trigger] whole[i] != c by {
            if i < front.len() {
                assert(whole[i] == front[i]);
            } else if i < front.len() + sep.len() {
                assert(whole[i] == sep[i - front.len()]);
            } else {
                assert(whole[i] == parts.last()[i - front.len() - sep.len()]);
            }
        }
    } else if parts.len() == 1 {
        assert(holds_no(parts[0], c));
    }
}

/// No line holds a line feed.
pub proof fn lemma_lines_hold_no_line_feed(s: Seq<char>)
    ensures
        forall|k: int| 0 <= k < lines(s).len() ==> holds_no(#[trigger] lines(s)[k], '\n'),
{
    law_split_is_exact(s, '\n');
    crate::text::lemma_split_nonempty(s, '\n');
    let segments = split_on(s, '\n');
    assert forall|k: int| 0 <= k < lines(s).len() implies holds_no(
        #[trigger] lines(s)[k],
        '\n',
    ) by {
        let line = lines(s)[k];
        if k < segments.len() - 1 {
            let segment = segments[k];
            assert(line == strip_cr(segment));
            assert(!segment.contains('\n'));
            assert forall|i: int| 0 <= i < line.len() implies #[trigger] line[i] != '\n' by {
                assert(line[i] == segment[i]);
                if line[i] == '\n' {
                    assert(segment.contains('\n'));
                }
            }
        } else {
            let segment = segments.last();
            assert(line == segment);
            assert(!segments[segments.len() - 1].contains('\n'));
            assert forall|i: int| 0 <= i < line.len() implies #[trigger] line[i] != '\n' by {
                if line[i] == '\n' {
                    assert(segment.contains('\n'));
                }
            }
        }
    }
}

/// The trimmed lines of lines that hold no `c` hold no `c`.
proof fn lemma_trimmed_lines_hold_no(ls: Seq<Seq<char>>, c: char)
    requires
        forall|k: int| 0 <= k < ls.len() ==> holds_no(#[trigger] ls[k], c),
    ensures
        forall|k: int|
            0 <= k < trimmed_lines(ls).len() ==> holds_no(#[trigger] trimmed_lines(ls)[k], c),
    decreases ls.len(),
{
    if ls.len() > 0 {
        let rest = ls.drop_first();
        assert forall|k: int| 0 <= k < rest.len() implies holds_no(#[trigger] rest[k], c) by {
            assert(rest[k] == ls[k + 1]);
        }
        lemma_trimmed_lines_hold_no(rest, c);
        lemma_trim_holds_no(ls[0], c);
        let out = trimmed_lines(ls);
        assert forall|k: int| 0 <= k < out.len() implies holds_no(#[trigger] out[k], c) by {
            if trim(ls[0]).len() > 0 {
                assert(out == seq![trim(ls[0])] + trimmed_lines(rest));
                if k == 0 {
                    assert(out[0] == trim(ls[0]));
                } else {
                    assert(out[k] == trimmed_lines(rest)[k - 1]);
                    assert(holds_no(trimmed_lines(rest)[k - 1], c));
                }
            } else {
                assert(out == trimmed_lines(rest));
                assert(holds_no(trimmed_lines(rest)[k], c));
            }
        }
    }
}

/// A flattened text is a single line: it holds no line feed, whatever the
/// text was.
pub proof fn law_flat_is_single_line(text: Seq<char>)
    ensures
        holds_no(flat(text), '\n'),
{
    lemma_lines_hold_no_line_feed(text);
    lemma_trimmed_lines_hold_no(lines(text), '\n');
    reveal_strlit(" ");
    assert(holds_no(" "@, '\n'));
    lemma_join_holds_no(trimmed_lines(lines(text)), " "@, '\n');
}

/// A text without the separator is its own single segment.
proof fn lemma_split_without_separator(s: Seq<char>, sep: char)
    requires
        holds_no(s, sep),
    ensures
        split_on(s, sep) == seq![s],
    decreases s.len(),
{
    if s.len() == 0 {
        assert(s =~= Seq::<char>::empty());
    } else {
        lemma_split_without_separator(s.drop_last(), sep);
        let front = split_on(s.drop_last(), sep);
        assert(front.last() == s.drop_last());
        assert(s.drop_last().push(s.last()) =~= s);
        assert(front.drop_last().push(front.last().push(s.last())) =~= seq![s]);
    }
}

/// Flattening leaves a text alone that is a single line already and has no
/// white space at either end.
pub proof fn law_flat_keeps_a_single_line(text: Seq<char>)
    requires
        holds_no(text, '\n'),
        text.len() > 0,
        !is_blank(text[0]),
        !is_blank(text.last()),
    ensures
        flat(text) == text,
{
    lemma_split_without_separator(text, '\n');
    let segments = split_on(text, '\n');
    assert(segments.drop_last() =~= Seq::<Seq<char>>::empty());
    assert(lines(text) =~= seq![text]);
    assert(trim(text) == text);
    let ls = seq![text];
    assert(trimmed_lines(ls.drop_first()) =~= Seq::<Seq<char>>::empty());
    assert(trimmed_lines(ls) =~= seq![text]);
}

} // verus!
