use patchvision::text::{
    append_lines, chars_of, digit_char, extend, join, lines, push_decimal, push_two_digits,
    replace, starts_at, string_of,
};

fn chars(text: &str) -> Vec<char> {
    text.chars().collect()
}

fn list(texts: &[&str]) -> Vec<Vec<char>> {
    texts.iter().map(|text| chars(text)).collect()
}

#[test]
fn characters_of_a_text_and_back() {
    assert_eq!(chars("grün ─│"), chars_of("grün ─│"));
    assert_eq!(Vec::<char>::new(), chars_of(""));
    assert_eq!("grün ─│", string_of(&chars("grün ─│")));
    assert_eq!("", string_of(&Vec::new()));
    let mut out = chars("ab");
    extend(&mut out, &chars("cd"));
    assert_eq!(chars("abcd"), out);
}

#[test]
fn lines_of_a_text() {
    assert_eq!(list(&["a", "b", "c"]), lines(&chars("a\nb\nc")));
    assert_eq!(list(&["a", "b", "c"]), lines(&chars("a\nb\nc\n")));
    assert_eq!(list(&["a", "", "c"]), lines(&chars("a\n\nc")));
    assert_eq!(list(&["a", "b", "c\r"]), lines(&chars("a\r\nb\r\nc\r")));
    assert_eq!(list(&["a\rb"]), lines(&chars("a\rb")));
    assert_eq!(list(&["a\r"]), lines(&chars("a\r\r\n")));
    assert_eq!(list(&[""]), lines(&chars("\n")));
    assert_eq!(list(&["", ""]), lines(&chars("\n\n")));
    assert_eq!(list(&[]), lines(&chars("")));
    for text in ["", "\n", "a", "a\n", "\na", "a\r\n\r\nb\r", "\r", "\r\n", "x\n\ny\n\n"] {
        let expected: Vec<Vec<char>> = text.lines().map(|line| line.chars().collect()).collect();
        assert_eq!(expected, lines(&chars(text)));
    }
}

#[test]
fn joining_lines() {
    assert_eq!(chars("a\nb\nc"), join(&list(&["a", "b", "c"])));
    assert_eq!(chars("a"), join(&list(&["a"])));
    assert_eq!(chars(""), join(&list(&[])));
    assert_eq!(chars("\n"), join(&list(&["", ""])));
    assert_eq!(chars("a1\nb2"), append_lines(&chars("a\nb\nc"), &chars("1\n2")));
}

#[test]
fn replacing_from_the_left() {
    let run = |text: &str, from: &str, to: &str| -> String {
        replace(&chars(text), &chars(from), &chars(to))
            .into_iter()
            .collect()
    };
    assert_eq!("a-b-c", run("a<x>b<x>c", "<x>", "-"));
    assert_eq!("ba", run("aaa", "aa", "b"));
    assert_eq!("bb", run("aaaa", "aa", "b"));
    assert_eq!("abc", run("abc", "", "x"));
    assert_eq!("abc", run("abc", "abcd", "x"));
    assert_eq!("", run("abc", "abc", ""));
    assert_eq!("xyxy", run("<<", "<", "xy"));
    assert_eq!("", run("", "a", "b"));
    for (text, from, to) in [("a<x>b<x>c", "<x>", "-"), ("aaa", "aa", "b"), ("abab", "ab", "ba")] {
        assert_eq!(text.replace(from, to), run(text, from, to));
    }
    assert!(starts_at(&chars("hello"), 2, &chars("llo")));
    assert!(!starts_at(&chars("hello"), 3, &chars("llo")));
    assert!(!starts_at(&chars("hello"), 2, &chars("lloo")));
    assert!(starts_at(&chars("hello"), 5, &chars("")));
}

#[test]
fn numbers_in_digits() {
    let decimal = |n: usize| -> String {
        let mut out = Vec::new();
        push_decimal(&mut out, n);
        out.into_iter().collect()
    };
    let two = |n: usize| -> String {
        let mut out = vec!['#'];
        push_two_digits(&mut out, n);
        out.into_iter().collect()
    };
    assert_eq!("0", decimal(0));
    assert_eq!("7", decimal(7));
    assert_eq!("10", decimal(10));
    assert_eq!("4096", decimal(4096));
    assert_eq!(usize::MAX.to_string(), decimal(usize::MAX));
    assert_eq!("#00", two(0));
    assert_eq!("#09", two(9));
    assert_eq!("#10", two(10));
    assert_eq!("#23", two(23));
    assert_eq!("#100", two(100));
    for d in 0..10 {
        assert_eq!(char::from_digit(d as u32, 10).unwrap(), digit_char(d));
    }
}
