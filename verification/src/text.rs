//! Text primitives: the order on strings, decimal numerals, and the movement
//! of characters between strings and vectors.

use vstd::prelude::*;
use vstd::std_specs::iter::IteratorSpec;

verus! {

/// `String::push` appends one character to the end of the string.
pub assume_specification[ std::string::String::push ](s: &mut std::string::String, c: char)
    ensures
        final(s)@ == old(s)@.push(c),
;

/// The characters of `s`, in order.
pub fn to_chars(s: &str) -> (r: Vec<char>)
    ensures
        r@ == s@,
{
    let mut out: Vec<char> = Vec::new();
    let mut it = s.chars();
    let ghost mut done: int = 0;
    loop
        invariant
            0 <= done <= s@.len(),
            out@ == s@.take(done),
            it.remaining() == s@.skip(done),
            it.obeys_prophetic_iter_laws(),
        decreases s@.len() - done,
    {
        match it.next() {
            Some(c) => {
                proof {
                    assert(s@.skip(done)[0] == s@[done]);
                    assert(s@.take(done).push(s@[done]) =~= s@.take(done + 1));
                    assert(s@.skip(done).drop_first() =~= s@.skip(done + 1));
                    done = done + 1;
                }
                out.push(c);
            },
            None => {
                proof {
                    assert(s@.take(done) =~= s@);
                }
                return out;
            },
        }
    }
}

/// The string that holds the characters of `v`, in order.
pub fn from_chars(v: &Vec<char>) -> (r: String)
    ensures
        r@ == v@,
{
    let mut out = String::new();
    let mut i: usize = 0;
    while i < v.len()
        invariant
            0 <= i <= v.len(),
            out@ == v@.take(i as int),
        decreases v.len() - i,
    {
        out.push(v[i]);
        proof {
            assert(v@.take(i as int).push(v@[i as int]) =~= v@.take(i + 1));
        }
        i += 1;
    }
    proof {
        assert(v@.take(v.len() as int) =~= v@);
    }
    out
}

/// How one text stands to another in the lexicographic order.
#[derive(Debug, Clone, Copy, PartialEq, Eq, Structural)]
pub enum Precedence {
    Before,
    Same,
    After,
}

/// The strict lexicographic order on texts, character by character, each
/// character taken by its code point. A proper prefix stands before the
/// longer text. This is the order in which Rust sorts strings.
pub open spec fn lex_less(a: Seq<char>, b: Seq<char>) -> bool
    decreases a.len(),
{
    if b.len() == 0 {
        false
    } else if a.len() == 0 {
        true
    } else if a[0] != b[0] {
        a[0] < b[0]
    } else {
        lex_less(a.drop_first(), b.drop_first())
    }
}

/// Where `a` stands relative to `b`.
pub open spec fn precedence(a: Seq<char>, b: Seq<char>) -> Precedence {
    if a == b {
        Precedence::Same
    } else if lex_less(a, b) {
        Precedence::Before
    } else {
        Precedence::After
    }
}

/// No text stands before itself.
pub proof fn lemma_lex_irreflexive(a: Seq<char>)
    ensures
        !lex_less(a, a),
    decreases a.len(),
{
    if a.len() > 0 {
        lemma_lex_irreflexive(a.drop_first());
    }
}

/// Of two different texts exactly one stands before the other.
pub proof fn lemma_lex_total(a: Seq<char>, b: Seq<char>)
    ensures
        a != b ==> (lex_less(a, b) <==> !lex_less(b, a)),
        a == b ==> !lex_less(a, b) && !lex_less(b, a),
    decreases a.len(),
{
    if a == b {
        lemma_lex_irreflexive(a);
    } else if a.len() > 0 && b.len() > 0 {
        if a[0] == b[0] {
            lemma_lex_total(a.drop_first(), b.drop_first());
            if a.drop_first() == b.drop_first() {
                assert(a =~= seq![a[0]] + a.drop_first());
                assert(b =~= seq![b[0]] + b.drop_first());
            }
        }
    } else {
        if a.len() == 0 && b.len() == 0 {
            assert(a =~= b);
        }
    }
}

/// The lexicographic order is transitive.
pub proof fn lemma_lex_transitive(a: Seq<char>, b: Seq<char>, c: Seq<char>)
    requires
        lex_less(a, b),
        lex_less(b, c),
    ensures
        lex_less(a, c),
    decreases a.len(),
{
    if a.len() > 0 {
        if a[0] == b[0] && b[0] == c[0] {
            lemma_lex_transitive(a.drop_first(), b.drop_first(), c.drop_first());
        }
    }
}

/// A common prefix does not change how two texts compare.
pub proof fn lemma_lex_skip_common(a: Seq<char>, b: Seq<char>, n: int)
    requires
        0 <= n <= a.len(),
        n <= b.len(),
        a.take(n) == b.take(n),
    ensures
        lex_less(a, b) == lex_less(a.skip(n), b.skip(n)),
        (a == b) == (a.skip(n) == b.skip(n)),
    decreases n,
{
    if n == 0 {
        assert(a.skip(0) =~= a);
        assert(b.skip(0) =~= b);
    } else {
        assert(a.take(n)[0] == a[0]);
        assert(b.take(n)[0] == b[0]);
        assert(a[0] == b[0]);
        assert(lex_less(a, b) == lex_less(a.drop_first(), b.drop_first()));
        assert(a.drop_first().take(n - 1) =~= a.take(n).drop_first());
        assert(b.drop_first().take(n - 1) =~= b.take(n).drop_first());
        lemma_lex_skip_common(a.drop_first(), b.drop_first(), n - 1);
        assert(a.drop_first().skip(n - 1) =~= a.skip(n));
        assert(b.drop_first().skip(n - 1) =~= b.skip(n));
        if a.skip(n) == b.skip(n) {
            assert(a =~= a.take(n) + a.skip(n));
            assert(b =~= b.take(n) + b.skip(n));
        }
    }
}

/// Compares two strings in the lexicographic order.
pub fn order_of(a: &str, b: &str) -> (r: Precedence)
    ensures
        r == precedence(a@, b@),
{
    let mut ita = a.chars();
    let mut itb = b.chars();
    let ghost mut done: int = 0;
    loop
        invariant
            0 <= done <= a@.len(),
            done <= b@.len(),
            a@.take(done) == b@.take(done),
            ita.remaining() == a@.skip(done),
            itb.remaining() == b@.skip(done),
            ita.obeys_prophetic_iter_laws(),
            itb.obeys_prophetic_iter_laws(),
        decreases a@.len() - done,
    {
        proof {
            lemma_lex_skip_common(a@, b@, done);
        }
        let x = ita.next();
        let y = itb.next();
        match (x, y) {
            (None, None) => {
                proof {
                    assert(a@.skip(done) =~= b@.skip(done));
                }
                return Precedence::Same;
            },
            (None, Some(_)) => {
                return Precedence::Before;
            },
            (Some(_), None) => {
                return Precedence::After;
            },
            (Some(p), Some(q)) => {
                if p != q {
                    proof {
                        assert(a@.skip(done)[0] == p);
                        assert(b@.skip(done)[0] == q);
                    }
                    if p < q {
                        return Precedence::Before;
                    } else {
                        return Precedence::After;
                    }
                }
                proof {
                    assert(a@.skip(done)[0] == a@[done]);
                    assert(b@.skip(done)[0] == b@[done]);
                    assert(a@.take(done + 1) =~= a@.take(done).push(a@[done]));
                    assert(b@.take(done + 1) =~= b@.take(done).push(b@[done]));
                    assert(a@.skip(done).drop_first() =~= a@.skip(done + 1));
                    assert(b@.skip(done).drop_first() =~= b@.skip(done + 1));
                    done = done + 1;
                }
            },
        }
    }
}

/// The segments of `s` between occurrences of `sep`, in order. There is
/// always at least one segment; a separator at either end, or two in a row,
/// give an empty segment.
pub open spec fn split_on(s: Seq<char>, sep: char) -> Seq<Seq<char>>
    decreases s.len(),
{
    if s.len() == 0 {
        seq![Seq::empty()]
    } else {
        let front = split_on(s.drop_last(), sep);
        if s.last() == sep {
            front.push(Seq::empty())
        } else {
            front.drop_last().push(front.last().push(s.last()))
        }
    }
}

/// Splitting always yields at least one segment.
pub proof fn lemma_split_nonempty(s: Seq<char>, sep: char)
    ensures
        split_on(s, sep).len() >= 1,
    decreases s.len(),
{
    if s.len() > 0 {
        lemma_split_nonempty(s.drop_last(), sep);
    }
}

/// The views of a list of strings.
pub open spec fn string_views(list: Seq<String>) -> Seq<Seq<char>> {
    list.map_values(|s: String| s@)
}

/// Splits `s` at every occurrence of `sep`.
pub fn split(s: &str, sep: char) -> (r: Vec<String>)
    ensures
        string_views(r@) == split_on(s@, sep),
{
    let chars = to_chars(s);
    let mut segments: Vec<String> = Vec::new();
    let mut current = String::new();
    let mut i: usize = 0;
    while i < chars.len()
        invariant
            0 <= i <= chars.len(),
            chars@ == s@,
            string_views(segments@).push(current@) == split_on(s@.take(i as int), sep),
        decreases chars.len() - i,
    {
        let c = chars[i];
        let ghost before = string_views(segments@);
        let ghost open_segment = current@;
        proof {
            assert(s@.take(i + 1).drop_last() =~= s@.take(i as int));
            assert(s@.take(i + 1).last() == c);
            assert(before.push(open_segment).drop_last() =~= before);
        }
        if c == sep {
            segments.push(current);
            current = String::new();
            proof {
                assert(string_views(segments@) =~= before.push(open_segment));
            }
        } else {
            current.push(c);
        }
        i += 1;
    }
    proof {
        assert(s@.take(chars.len() as int) =~= s@);
    }
    let ghost before = string_views(segments@);
    let ghost last_segment = current@;
    segments.push(current);
    proof {
        assert(string_views(segments@) =~= before.push(last_segment));
    }
    segments
}

/// The texts of `parts`, one after the other, with `sep` between each two.
pub open spec fn join(parts: Seq<Seq<char>>, sep: Seq<char>) -> Seq<char>
    decreases parts.len(),
{
    if parts.len() == 0 {
        Seq::empty()
    } else if parts.len() == 1 {
        parts[0]
    } else {
        join(parts.drop_last(), sep) + sep + parts.last()
    }
}

/// Joins `parts` with `sep` between each two.
pub fn join_strings(parts: &Vec<String>, sep: &str) -> (r: String)
    ensures
        r@ == join(string_views(parts@), sep@),
{
    let ghost views = string_views(parts@);
    let mut out = String::new();
    let mut i: usize = 0;
    while i < parts.len()
        invariant
            0 <= i <= parts.len(),
            views == string_views(parts@),
            out@ == join(views.take(i as int), sep@),
        decreases parts.len() - i,
    {
        if i > 0 {
            out.append(sep);
        }
        out.append(parts[i].as_str());
        proof {
            assert(views.take(i + 1).drop_last() =~= views.take(i as int));
            assert(views.take(i + 1).last() == parts@[i as int]@);
            if i == 0 {
                assert(Seq::<char>::empty() + parts@[0]@ =~= parts@[0]@);
            }
        }
        i += 1;
    }
    proof {
        assert(views.take(parts.len() as int) =~= views);
    }
    out
}

/// Splitting loses nothing and cuts at every separator: the segments
/// joined by the separator give back the text, and no segment holds the
/// separator.
pub proof fn law_split_is_exact(s: Seq<char>, sep: char)
    ensures
        join(split_on(s, sep), seq![sep]) == s,
        forall|k: int|
            0 <= k < split_on(s, sep).len() ==> !(#[trigger] split_on(s, sep)[k]).contains(sep),
    decreases s.len(),
{
    let parts = split_on(s, sep);
    if s.len() == 0 {
        assert(parts[0] =~= Seq::<char>::empty());
        assert(join(parts, seq![sep]) =~= s);
        assert forall|k: int| 0 <= k < parts.len() implies !(#[trigger] parts[k]).contains(sep) by {
            assert(parts[k].len() == 0);
        }
    } else {
        let front = split_on(s.drop_last(), sep);
        law_split_is_exact(s.drop_last(), sep);
        lemma_split_nonempty(s.drop_last(), sep);
        if s.last() == sep {
            assert(parts.drop_last() =~= front);
            assert(join(parts, seq![sep]) =~= s.drop_last() + seq![sep] + Seq::<char>::empty());
            assert(s.drop_last() + seq![sep] + Seq::<char>::empty() =~= s);
            assert forall|k: int| 0 <= k < parts.len() implies !(#[trigger] parts[k]).contains(
                sep,
            ) by {
                if k < front.len() {
                    assert(parts[k] == front[k]);
                } else {
                    assert(parts[k].len() == 0);
                }
            }
        } else {
            let grown = front.last().push(s.last());
            assert(parts.last() == grown);
            assert(parts.drop_last() =~= front.drop_last());
            if front.len() == 1 {
                assert(join(front, seq![sep]) == front[0]);
                assert(join(parts, seq![sep]) =~= s.drop_last().push(s.last()));
            } else {
                assert(join(parts, seq![sep]) =~= (join(front.drop_last(), seq![sep]) + seq![sep]
                    + front.last()).push(s.last()));
            }
            assert(s.drop_last().push(s.last()) =~= s);
            assert forall|k: int| 0 <= k < parts.len() implies !(#[trigger] parts[k]).contains(
                sep,
            ) by {
                if k < parts.len() - 1 {
                    assert(parts[k] == front[k]);
                } else {
                    assert(!front.last().contains(sep));
                    if grown.contains(sep) {
                        let at = choose|at: int| 0 <= at < grown.len() && grown[at] == sep;
                        if at < front.last().len() {
                            assert(front.last()[at] == sep);
                        }
                    }
                }
            }
        }
    }
}

/// The last of the segments of `s` between occurrences of `sep`: what
/// follows the last `sep`, or all of `s` where there is none.
pub open spec fn last_segment(s: Seq<char>, sep: char) -> Seq<char> {
    split_on(s, sep).last()
}

/// The part of `s` behind its last `sep`.
pub fn last_segment_of(s: &str, sep: char) -> (r: String)
    ensures
        r@ == last_segment(s@, sep),
{
    let mut segments = split(s, sep);
    proof {
        lemma_split_nonempty(s@, sep);
        assert(string_views(segments@).len() == segments@.len());
    }
    let last = segments.pop();
    match last {
        Some(segment) => segment,
        None => String::new(),
    }
}

/// The character that writes the digit `d`.
pub open spec fn digit_char(d: int) -> char {
    if d == 0 {
        '0'
    } else if d == 1 {
        '1'
    } else if d == 2 {
        '2'
    } else if d == 3 {
        '3'
    } else if d == 4 {
        '4'
    } else if d == 5 {
        '5'
    } else if d == 6 {
        '6'
    } else if d == 7 {
        '7'
    } else if d == 8 {
        '8'
    } else {
        '9'
    }
}

/// The decimal numeral of `n`: no sign, no leading zero, `0` for zero.
pub open spec fn decimal(n: nat) -> Seq<char>
    decreases n,
{
    if n < 10 {
        seq![digit_char(n as int)]
    } else {
        decimal(n / 10).push(digit_char((n % 10) as int))
    }
}

fn digit_of(d: u64) -> (r: char)
    requires
        d < 10,
    ensures
        r == digit_char(d as int),
{
    if d == 0 {
        '0'
    } else if d == 1 {
        '1'
    } else if d == 2 {
        '2'
    } else if d == 3 {
        '3'
    } else if d == 4 {
        '4'
    } else if d == 5 {
        '5'
    } else if d == 6 {
        '6'
    } else if d == 7 {
        '7'
    } else if d == 8 {
        '8'
    } else {
        '9'
    }
}

/// Appends the decimal numeral of `n` to `out`.
pub fn push_decimal(out: &mut String, n: u64)
    ensures
        final(out)@ == old(out)@ + decimal(n as nat),
    decreases n,
{
    if n >= 10 {
        push_decimal(out, n / 10);
    }
    out.push(digit_of(n % 10));
    proof {
        if n >= 10 {
            assert(old(out)@ + decimal(n as nat) =~= (old(out)@ + decimal((n / 10) as nat)).push(
                digit_char((n % 10) as int),
            ));
        } else {
            assert(old(out)@ + decimal(n as nat) =~= old(out)@.push(digit_char(n as int)));
        }
    }
}

/// The decimal numeral of `n` as a string.
pub fn decimal_string(n: u64) -> (r: String)
    ensures
        r@ == decimal(n as nat),
{
    let mut out = String::new();
    push_decimal(&mut out, n);
    proof {
        assert(Seq::<char>::empty() + decimal(n as nat) =~= decimal(n as nat));
    }
    out
}

} // verus!
