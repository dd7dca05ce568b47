use wavepeek::order::{order_siblings, stands_before, SortKey};
use wavepeek::scan::{
    char_is_blank, flatten, lines_of, same_chars, slice_of, starts_with, strip_prefix_of,
    strip_repeated_prefix, trimmed, trimmed_start, words_of,
};
use wavepeek::shape::limit;
use wavepeek::text::{
    decimal_string, from_chars, join_strings, last_segment_of, order_of, push_decimal, split,
    to_chars, Precedence,
};

fn chars(text: &str) -> Vec<char> {
    text.chars().collect()
}

fn key(name: &str, path: &str) -> SortKey {
    SortKey {
        name: name.to_string(),
        path: path.to_string(),
    }
}

#[test]
fn characters_move_between_strings_and_vectors() {
    assert_eq!(to_chars("a│b"), vec!['a', '│', 'b']);
    assert_eq!(from_chars(&vec!['└', '─', ' ']), "└─ ");
    assert_eq!(to_chars(""), Vec::<char>::new());
}

#[test]
fn order_of_agrees_with_the_order_of_strings() {
    let samples = [
        "", "a", "A", "ab", "abc", "abd", "b", "clk", "cfg", "data", "top.cpu", "top.cpu.alu",
        "top_cpu", "é", "z", "│", "\u{10ffff}", "a\u{0}",
    ];
    for left in samples {
        for right in samples {
            let expected = if left < right {
                Precedence::Before
            } else if left == right {
                Precedence::Same
            } else {
                Precedence::After
            };
            assert_eq!(order_of(left, right), expected, "{left:?} against {right:?}");
        }
    }
}

#[test]
fn keys_order_by_name_then_path() {
    assert!(stands_before(&key("a", "z.a"), &key("b", "a.b")));
    assert!(stands_before(&key("a", "x.a"), &key("a", "y.a")));
    assert!(!stands_before(&key("a", "x.a"), &key("a", "x.a")));
    assert!(!stands_before(&key("b", "a.b"), &key("a", "z.a")));
}

#[test]
fn sibling_order_is_stable_and_ascending() {
    let keys = vec![
        key("clk", "top.clk"),
        key("data", "top.data"),
        key("cfg", "top.cfg"),
        key("clk", "top.clk"),
        key("clk", "a.clk"),
    ];
    assert_eq!(order_siblings(&keys), vec![2, 4, 0, 3, 1]);
    assert_eq!(order_siblings(&vec![]), Vec::<usize>::new());
}

#[test]
fn decimal_numerals_are_exact() {
    assert_eq!(decimal_string(0), "0");
    assert_eq!(decimal_string(7), "7");
    assert_eq!(decimal_string(10), "10");
    assert_eq!(decimal_string(1234567890), "1234567890");
    assert_eq!(decimal_string(u64::MAX), "18446744073709551615");
    let mut text = "n=".to_string();
    push_decimal(&mut text, 42);
    assert_eq!(text, "n=42");
}

#[test]
fn split_keeps_empty_segments() {
    assert_eq!(split("top.cpu.alu", '.'), vec!["top", "cpu", "alu"]);
    assert_eq!(split("", '.'), vec![""]);
    assert_eq!(split("top.", '.'), vec!["top", ""]);
    assert_eq!(split(".top", '.'), vec!["", "top"]);
    assert_eq!(split("a..b", '.'), vec!["a", "", "b"]);
    assert_eq!(last_segment_of("top.cpu.alu", '.'), "alu");
    assert_eq!(last_segment_of("top", '.'), "top");
    assert_eq!(last_segment_of("top.", '.'), "");
}

#[test]
fn join_puts_the_separator_between() {
    let parts = vec!["a".to_string(), "b".to_string(), "c".to_string()];
    assert_eq!(join_strings(&parts, ", "), "a, b, c");
    assert_eq!(join_strings(&vec!["only".to_string()], "\n"), "only");
    assert_eq!(join_strings(&vec![], "\n"), "");
}

#[test]
fn blank_characters_are_those_of_the_standard_library() {
    let mut code: u32 = 0;
    while code <= 0x10ffff {
        if let Some(c) = char::from_u32(code) {
            assert_eq!(char_is_blank(c), c.is_whitespace(), "U+{code:04X}");
        }
        code += 1;
    }
}

#[test]
fn trimming_agrees_with_the_standard_library() {
    let samples = ["", "  ", "a", " a", "a ", "\t a b \r\n", "\u{a0}x\u{3000}", " Usage: x "];
    for sample in samples {
        assert_eq!(from_chars(&trimmed(&chars(sample))), sample.trim());
        assert_eq!(from_chars(&trimmed_start(&chars(sample))), sample.trim_start());
    }
}

#[test]
fn lines_agree_with_the_standard_library() {
    let samples = [
        "", "\n", "a", "a\n", "a\nb", "a\r\nb\r\n", "a\r", "\r\n", "a\n\nb\n", "a\r\r\n", "\n\n",
    ];
    for sample in samples {
        let ours: Vec<String> = lines_of(sample).iter().map(from_chars).collect();
        let theirs: Vec<String> = sample.lines().map(str::to_string).collect();
        assert_eq!(ours, theirs, "{sample:?}");
    }
}

#[test]
fn words_agree_with_the_standard_library() {
    let samples = ["", "  ", "a", " a  b\tc\n", "wavepeek info --waves <FILE>", "x\u{a0}y"];
    for sample in samples {
        let ours: Vec<String> = words_of(&chars(sample)).iter().map(from_chars).collect();
        let theirs: Vec<String> = sample.split_whitespace().map(str::to_string).collect();
        assert_eq!(ours, theirs, "{sample:?}");
    }
}

#[test]
fn prefixes_are_tested_and_stripped() {
    assert!(starts_with(&chars("Usage: x"), &chars("Usage:")));
    assert!(!starts_with(&chars("Usag"), &chars("Usage:")));
    assert!(starts_with(&chars("abc"), &chars("")));
    assert_eq!(strip_prefix_of(&chars("error: x"), &chars("error:")), Some(chars(" x")));
    assert_eq!(strip_prefix_of(&chars("err"), &chars("error:")), None);
    assert_eq!(
        strip_repeated_prefix(&chars("Usage:Usage: x"), &chars("Usage:")),
        chars(" x")
    );
    assert_eq!(strip_repeated_prefix(&chars("x"), &chars("")), chars("x"));
    assert!(same_chars(&chars("wavepeek"), &chars("wavepeek")));
    assert!(!same_chars(&chars("wavepeek"), &chars("wavepeeks")));
    assert_eq!(slice_of(&chars("abcdef"), 2, 4), chars("cd"));
}

#[test]
fn limit_cuts_to_the_first_entries_and_warns_once() {
    let mut entries = vec![1, 2, 3, 4, 5];
    let warnings = limit(&mut entries, 3);
    assert_eq!(entries, vec![1, 2, 3]);
    assert_eq!(
        warnings,
        vec!["truncated output to 3 entries (use --max to increase limit)".to_string()]
    );
}

#[test]
fn limit_leaves_a_fitting_result_alone() {
    let mut entries = vec![1, 2, 3];
    assert!(limit(&mut entries, 3).is_empty());
    assert_eq!(entries, vec![1, 2, 3]);
    assert!(limit(&mut entries, 10).is_empty());
    assert_eq!(entries, vec![1, 2, 3]);
    let mut none: Vec<u8> = vec![];
    assert!(limit(&mut none, 1).is_empty());
}

#[test]
fn flatten_joins_the_lines_that_are_not_blank() {
    assert_eq!(flatten("one line"), "one line");
    assert_eq!(flatten("regex parse error:\n    (\n    ^\nerror: unclosed group"), "regex parse error: ( ^ error: unclosed group");
    assert_eq!(flatten("  a  b  \r\n\n\tc\n"), "a  b c");
    assert_eq!(flatten(""), "");
    assert_eq!(flatten("\n \n"), "");
}
