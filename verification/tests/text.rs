use jobqueue::text::{
    chars_of, find, includes, is_whitespace, matches_at, push_decimal, replace_all, split_fields,
    split_lines, split_path, string_of,
};

fn chars(s: &str) -> Vec<char> {
    s.chars().collect()
}

fn strings(parts: &[Vec<char>]) -> Vec<String> {
    parts.iter().map(|p| p.iter().collect()).collect()
}

fn lines_of(s: &str) -> Vec<String> {
    strings(&split_lines(&chars(s)))
}

fn fields_of(s: &str) -> Vec<String> {
    strings(&split_fields(&chars(s)))
}

fn replaced(s: &str, pat: &str, to: &str) -> String {
    replace_all(&chars(s), &chars(pat), &chars(to)).iter().collect()
}

fn decimal(n: i128) -> String {
    let mut out = Vec::new();
    push_decimal(&mut out, n);
    out.iter().collect()
}

fn path_parts(s: &str) -> Option<(String, String)> {
    split_path(&chars(s)).map(|(d, n)| (d.iter().collect(), n.iter().collect()))
}

#[test]
fn chars_and_strings_convert_both_ways() {
    assert_eq!(chars_of("héllo\n"), vec!['h', 'é', 'l', 'l', 'o', '\n']);
    assert_eq!(string_of(&['q', 's', 'u', 'b']), "qsub");
    assert_eq!(string_of(&chars_of("")), "");
    assert_eq!(string_of(&chars_of("a\u{1F600}b")), "a\u{1F600}b");
}

#[test]
fn white_space_is_what_std_calls_white_space() {
    let mut c = 0u32;
    while c <= 0x10FFFF {
        if let Some(ch) = char::from_u32(c) {
            assert_eq!(is_whitespace(ch), ch.is_whitespace(), "U+{:04X}", c);
        }
        c += 1;
    }
}

#[test]
fn lines_end_at_line_feeds() {
    assert_eq!(lines_of("a\nb\r\nc"), vec!["a", "b", "c"]);
    assert_eq!(lines_of("a\n"), vec!["a"]);
    assert_eq!(lines_of("a\n\nb\n"), vec!["a", "", "b"]);
    assert_eq!(lines_of("\n"), vec![""]);
    assert_eq!(lines_of(""), Vec::<String>::new());
}

#[test]
fn a_carriage_return_without_line_feed_stays() {
    assert_eq!(lines_of("a\rb\n"), vec!["a\rb"]);
    assert_eq!(lines_of("a\r"), vec!["a\r"]);
    assert_eq!(lines_of("\r\n"), vec![""]);
    assert_eq!(lines_of("a\r\r\n"), vec!["a\r"]);
}

#[test]
fn lines_agree_with_std() {
    for text in ["", "x", "x\n", "\n\n", "a\r\nb\rc\n\r\n", "last\r", "one\ntwo\n\nfour"] {
        let expected: Vec<String> = text.lines().map(String::from).collect();
        assert_eq!(lines_of(text), expected, "{:?}", text);
    }
}

#[test]
fn fields_are_runs_without_white_space() {
    assert_eq!(fields_of("  819446   user\tqueue \n"), vec!["819446", "user", "queue"]);
    assert_eq!(fields_of("one"), vec!["one"]);
    assert_eq!(fields_of(" \t\r\n"), Vec::<String>::new());
    assert_eq!(fields_of(""), Vec::<String>::new());
}

#[test]
fn fields_agree_with_std() {
    for text in ["", " ", "a", " a", "a ", "a  b", "\u{2003}a\u{a0}b\u{3000}", "x\u{200b}y z"] {
        let expected: Vec<String> = text.split_whitespace().map(String::from).collect();
        assert_eq!(fields_of(text), expected, "{:?}", text);
    }
}

#[test]
fn search_finds_the_first_place() {
    let hay = chars("abcabc");
    assert_eq!(find(&hay, &chars("bc"), 0), Some(1));
    assert_eq!(find(&hay, &chars("bc"), 2), Some(4));
    assert_eq!(find(&hay, &chars("bc"), 5), None);
    assert_eq!(find(&hay, &chars("cab"), 0), Some(2));
    assert_eq!(find(&hay, &chars("x"), 0), None);
    assert_eq!(find(&hay, &chars(""), 6), Some(6));
    assert_eq!(find(&hay, &chars(""), 7), None);
    assert!(matches_at(&hay, &chars("abc"), 3));
    assert!(!matches_at(&hay, &chars("abc"), 4));
    assert!(!matches_at(&hay, &chars("abc"), usize::MAX));
    assert!(includes(&hay, &chars("ca")));
    assert!(!includes(&hay, &chars("cc")));
}

#[test]
fn replacing_takes_occurrences_from_the_left() {
    assert_eq!(replaced("aaa", "aa", "b"), "ba");
    assert_eq!(replaced("#PBS -N {{.basename}} {{.basename}}", "{{.basename}}", "x"), "#PBS -N x x");
    assert_eq!(replaced("abc", "d", "e"), "abc");
    assert_eq!(replaced("abab", "ab", ""), "");
    assert_eq!(replaced("", "ab", "c"), "");
    assert_eq!(replaced("aXbX", "X", "XX"), "aXXbXX");
    assert_eq!(replaced("abc", "", "x"), "abc");
}

#[test]
fn replacing_agrees_with_std() {
    for (text, pat, to) in [("aaaa", "aa", "a"), ("{{x}}{{x", "{{x}}", "{"), ("abcabc", "bc", "cb")]
    {
        assert_eq!(replaced(text, pat, to), text.replace(pat, to));
    }
}

#[test]
fn numbers_are_written_in_decimal() {
    assert_eq!(decimal(0), "0");
    assert_eq!(decimal(7), "7");
    assert_eq!(decimal(10), "10");
    assert_eq!(decimal(-1), "-1");
    assert_eq!(decimal(1234567890), "1234567890");
    assert_eq!(decimal(-9001), "-9001");
    assert_eq!(decimal(i128::MAX), format!("{}", i128::MAX));
    assert_eq!(decimal(i128::MIN), format!("{}", i128::MIN));
}

#[test]
fn decimal_appends_to_what_is_there() {
    let mut out = vec!['m', 'a', 'i', 'n'];
    push_decimal(&mut out, 42);
    assert_eq!(string_of(&out), "main42");
}

#[test]
fn a_path_splits_before_its_last_component() {
    assert_eq!(path_parts("opt/main0.pbs"), Some((String::from("opt"), String::from("main0.pbs"))));
    assert_eq!(path_parts("a/b/c"), Some((String::from("a/b"), String::from("c"))));
    assert_eq!(path_parts("job.pbs"), Some((String::new(), String::from("job.pbs"))));
    assert_eq!(path_parts("/job"), Some((String::from("/"), String::from("job"))));
    assert_eq!(path_parts("//job"), Some((String::from("/"), String::from("job"))));
    assert_eq!(path_parts("a//b"), Some((String::from("a"), String::from("b"))));
    assert_eq!(path_parts("a/./b"), Some((String::from("a"), String::from("b"))));
    assert_eq!(path_parts("./x"), Some((String::from("."), String::from("x"))));
    assert_eq!(path_parts("../x"), Some((String::from(".."), String::from("x"))));
    assert_eq!(path_parts("..."), Some((String::new(), String::from("..."))));
    assert_eq!(path_parts("a."), Some((String::new(), String::from("a."))));
    assert_eq!(path_parts(".a/b."), Some((String::from(".a"), String::from("b."))));
}

#[test]
fn empty_and_dot_components_at_the_end_do_not_count() {
    assert_eq!(path_parts("/usr/bin/"), Some((String::from("/usr"), String::from("bin"))));
    assert_eq!(path_parts("opt/"), Some((String::new(), String::from("opt"))));
    assert_eq!(path_parts("opt/."), Some((String::new(), String::from("opt"))));
    assert_eq!(path_parts("foo.txt/.//"), Some((String::new(), String::from("foo.txt"))));
    assert_eq!(path_parts("a/b/./"), Some((String::from("a"), String::from("b"))));
}

#[test]
fn a_path_without_a_last_component_names_no_file() {
    assert_eq!(path_parts(""), None);
    assert_eq!(path_parts("/"), None);
    assert_eq!(path_parts("//"), None);
    assert_eq!(path_parts("."), None);
    assert_eq!(path_parts("./"), None);
    assert_eq!(path_parts("./."), None);
    assert_eq!(path_parts("/."), None);
    assert_eq!(path_parts(".."), None);
    assert_eq!(path_parts("opt/.."), None);
    assert_eq!(path_parts("foo.txt/../"), None);
}
