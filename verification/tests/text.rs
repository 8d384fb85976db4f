use egloorator::text::{
    chars_contain, chars_occur_at, chars_of, contains, copy_range, decimal_string, digits_string,
    replace, same_text, split_ranges, starts_with,
};

#[test]
fn chars_of_keeps_every_character() {
    assert_eq!(chars_of(""), Vec::<char>::new());
    assert_eq!(chars_of("a\tb"), vec!['a', '\t', 'b']);
    assert_eq!(chars_of("héé"), vec!['h', 'é', 'é']);
}

#[test]
fn contains_finds_substrings() {
    assert!(contains("alsa_input.usb-x", "usb"));
    assert!(contains("usb", "usb"));
    assert!(contains("xusb", "usb"));
    assert!(contains("usbx", "usb"));
    assert!(contains("ususb", "usb"));
    assert!(!contains("us b", "usb"));
    assert!(!contains("us", "usb"));
    assert!(!contains("", "usb"));
    assert!(contains("abc", ""));
    assert!(contains("", ""));
}

#[test]
fn contains_agrees_with_the_standard_search() {
    let hays = ["", "a", "ab", "aab", "abab", "monitor.usb", "bbbbab", "éaé"];
    let needles = ["", "a", "b", "ab", "aba", "bab", "usb", "é", "aé"];
    for hay in hays {
        for needle in needles {
            assert_eq!(contains(hay, needle), hay.contains(needle));
            assert_eq!(
                chars_contain(&chars_of(hay), &chars_of(needle)),
                hay.contains(needle)
            );
            assert_eq!(starts_with(hay, needle), hay.starts_with(needle));
            assert_eq!(same_text(hay, needle), hay == needle);
        }
    }
}

#[test]
fn occurrence_at_a_position() {
    let hay = chars_of("abcabc");
    assert!(chars_occur_at(&hay, &chars_of("bc"), 1));
    assert!(chars_occur_at(&hay, &chars_of("bc"), 4));
    assert!(!chars_occur_at(&hay, &chars_of("bc"), 0));
    assert!(chars_occur_at(&hay, &chars_of(""), 6));
    assert!(chars_occur_at(&hay, &chars_of("abcabc"), 0));
    // past the end nothing stands
    assert!(!chars_occur_at(&hay, &chars_of("bc"), 5));
    assert!(!chars_occur_at(&hay, &chars_of(""), 7));
    assert!(!chars_occur_at(&hay, &chars_of("abcabca"), 0));
    assert!(!chars_occur_at(&hay, &chars_of("a"), usize::MAX));
}

#[test]
fn starts_with_looks_at_the_beginning_only() {
    assert!(starts_with("pulsesink device=x", "pulsesink"));
    assert!(starts_with("pulsesink", "pulsesink"));
    assert!(!starts_with(" pulsesink", "pulsesink"));
    assert!(!starts_with("pulsesin", "pulsesink"));
    assert!(starts_with("x", ""));
}

#[test]
fn same_text_is_equality() {
    assert!(same_text("level", "level"));
    assert!(!same_text("level", "levels"));
    assert!(!same_text("levels", "level"));
    assert!(!same_text("level", "lever"));
    assert!(same_text("", ""));
}

#[test]
fn decimal_notation() {
    assert_eq!(decimal_string(0), "0");
    assert_eq!(decimal_string(7), "7");
    assert_eq!(decimal_string(10), "10");
    assert_eq!(decimal_string(26), "26");
    assert_eq!(decimal_string(1234567890), "1234567890");
    assert_eq!(decimal_string(-1), "-1");
    assert_eq!(decimal_string(-30), "-30");
    assert_eq!(decimal_string(i64::MAX), "9223372036854775807");
    assert_eq!(decimal_string(i64::MIN), "-9223372036854775808");
    assert_eq!(digits_string(0), "0");
    assert_eq!(digits_string(9), "9");
    assert_eq!(digits_string(100), "100");
    assert_eq!(digits_string(u64::MAX), "18446744073709551615");
}

#[test]
fn decimal_notation_agrees_with_the_standard_one() {
    let mut n: i64 = -5000;
    while n <= 5000 {
        assert_eq!(decimal_string(n), format!("{}", n));
        n += 7;
    }
    let mut m: u64 = 1;
    for _ in 0..19 {
        assert_eq!(digits_string(m), format!("{}", m));
        assert_eq!(digits_string(m - 1), format!("{}", m - 1));
        m *= 10;
    }
}

#[test]
fn replace_replaces_every_occurrence() {
    assert_eq!(replace("alsa_input.usb", "input", "output"), "alsa_output.usb");
    assert_eq!(replace("mono mono", "mono", "stereo"), "stereo stereo");
    assert_eq!(replace("aaa", "aa", "b"), "ba");
    assert_eq!(replace("aaaa", "aa", "b"), "bb");
    assert_eq!(replace("abc", "abcd", "x"), "abc");
    assert_eq!(replace("abc", "abc", ""), "");
    assert_eq!(replace("", "a", "b"), "");
    assert_eq!(replace("abc", "", "-"), "-a-b-c-");
    assert_eq!(replace("", "", "-"), "-");
}

#[test]
fn replace_agrees_with_the_standard_one() {
    let texts = ["", "a", "aa", "aaa", "abab", "ababa", "input.mono", "xinputinputx", "éaé"];
    let patterns = ["", "a", "aa", "ab", "aba", "input", "é", "x"];
    let replacements = ["", "a", "b", "output", "aa"];
    for text in texts {
        for from in patterns {
            for to in replacements {
                assert_eq!(replace(text, from, to), text.replace(from, to));
            }
        }
    }
}

fn pieces(text: &str, sep: char) -> Vec<String> {
    let chars = chars_of(text);
    split_ranges(&chars, 0, chars.len(), sep)
        .iter()
        .map(|(from, to)| copy_range(&chars, *from, *to).into_iter().collect())
        .collect()
}

#[test]
fn split_gives_one_piece_more_than_separators() {
    assert_eq!(pieces("", '\n'), vec![""]);
    assert_eq!(pieces("a", '\n'), vec!["a"]);
    assert_eq!(pieces("a\nb", '\n'), vec!["a", "b"]);
    assert_eq!(pieces("a\nb\n", '\n'), vec!["a", "b", ""]);
    assert_eq!(pieces("\n\n", '\n'), vec!["", "", ""]);
    assert_eq!(pieces("1\tx\ty", '\t'), vec!["1", "x", "y"]);
}

#[test]
fn split_agrees_with_the_standard_one() {
    for text in ["", "\t", "a\t", "\ta", "a\tb\tc", "\t\t\t", "ab", "é\té"] {
        let expected: Vec<String> = text.split('\t').map(String::from).collect();
        assert_eq!(pieces(text, '\t'), expected);
    }
}

#[test]
fn split_within_a_range() {
    let chars = chars_of("ab\tcd\nef\tgh");
    assert_eq!(split_ranges(&chars, 0, 5, '\t'), vec![(0, 2), (3, 5)]);
    assert_eq!(split_ranges(&chars, 6, 11, '\t'), vec![(6, 8), (9, 11)]);
    assert_eq!(split_ranges(&chars, 3, 3, '\t'), vec![(3, 3)]);
    assert_eq!(copy_range(&chars, 3, 5), vec!['c', 'd']);
    assert_eq!(copy_range(&chars, 4, 4), Vec::<char>::new());
}
