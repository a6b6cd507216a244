use cluster_manager::text::{
    from_chars, join, join3, parse_usize, render_i64, render_u64, render_usize, split_char,
    split_lines, split_str, split_whitespace, str_contains, str_ends_with, str_eq, str_replace,
    str_replace_first, str_starts_with, to_chars,
};

fn strings(items: &[&str]) -> Vec<String> {
    items.iter().map(|s| s.to_string()).collect()
}

#[test]
fn chars_round_trip() {
    let v = to_chars("a\u{e9}\u{2014}z");
    assert_eq!(v, vec!['a', '\u{e9}', '\u{2014}', 'z']);
    assert_eq!(from_chars(&v, 0, 4), "a\u{e9}\u{2014}z");
    assert_eq!(from_chars(&v, 1, 3), "\u{e9}\u{2014}");
    assert_eq!(from_chars(&v, 2, 2), "");
}

#[test]
fn split_whitespace_drops_empty_words() {
    assert_eq!(split_whitespace("  ext4 /boot\tboot \n 256M "), strings(&["ext4", "/boot", "boot", "256M"]));
    assert_eq!(split_whitespace(""), Vec::<String>::new());
    assert_eq!(split_whitespace(" \t\n"), Vec::<String>::new());
    assert_eq!(split_whitespace("one"), strings(&["one"]));
}

#[test]
fn split_whitespace_agrees_with_std() {
    for text in ["a\u{a0}b", "a\u{2003}b\u{3000}c", "x\u{85}y", "p\u{200b}q", "  lead and trail  "] {
        let expected: Vec<String> = text.split_whitespace().map(|s| s.to_string()).collect();
        assert_eq!(split_whitespace(text), expected);
    }
}

#[test]
fn split_char_keeps_empty_pieces() {
    assert_eq!(split_char("a,b,,c", ','), strings(&["a", "b", "", "c"]));
    assert_eq!(split_char("", ','), strings(&[""]));
    assert_eq!(split_char(",", ','), strings(&["", ""]));
    assert_eq!(split_char("/tmp/1234/boot", '/'), strings(&["", "tmp", "1234", "boot"]));
    assert_eq!(split_char("/dev/loop0p1", 'p'), strings(&["/dev/loo", "0", "1"]));
}

#[test]
fn split_lines_agrees_with_std() {
    for text in ["", "a", "a\n", "a\nb", "a\r\nb\r\n", "a\r", "\n", "\n\n", "a\n\nb", "x\r\r\ny"] {
        let expected: Vec<String> = text.lines().map(|s| s.to_string()).collect();
        assert_eq!(split_lines(text), expected, "lines of {:?}", text);
    }
}

#[test]
fn split_str_splits_at_a_pattern() {
    assert_eq!(split_str("/dev/vg0/root", "vg0/"), strings(&["/dev/", "root"]));
    assert_eq!(split_str("abc", "x"), strings(&["abc"]));
    assert_eq!(split_str("aXXbXX", "XX"), strings(&["a", "b", ""]));
    assert_eq!(split_str("aaa", "aa"), strings(&["", "a"]));
}

#[test]
fn join_puts_the_separator_between() {
    assert_eq!(join(&strings(&["a", "b", "c"]), "/"), "a/b/c");
    assert_eq!(join(&strings(&[""]), "/"), "");
    assert_eq!(join(&strings(&["", "boot"]), "/"), "/boot");
    assert_eq!(join(&Vec::new(), "/"), "");
    assert_eq!(join3("a", "-", "b"), "a-b");
}

#[test]
fn contains_and_affixes() {
    assert!(str_contains("mounting /dev/loop0p1 to /tmp/x", " to "));
    assert!(!str_contains("mounting", " to "));
    assert!(str_contains("abc", ""));
    assert!(str_contains("", ""));
    assert!(!str_contains("ab", "abc"));
    assert!(str_starts_with("dhcp-host=aa", "dhcp-host="));
    assert!(!str_starts_with("x-dhcp-host=aa", "dhcp-host="));
    assert!(str_ends_with("/var/log/", "/"));
    assert!(!str_ends_with("/var/log", "/"));
    assert!(str_eq("abc", "abc"));
    assert!(!str_eq("abc", "abd"));
}

#[test]
fn replace_agrees_with_std() {
    let cases = [
        ("a:b:c", ":", "-"),
        ("aaaa", "aa", "b"),
        ("abc", "", "-"),
        ("", "", "x"),
        ("", "a", "x"),
        ("//nfs//n1//boot", "//", "/"),
        ("%SERVER_IP% and %SERVER_IP%", "%SERVER_IP%", "10.0.0.1"),
        ("line \\\n continued", "\\\n", ""),
    ];
    for (text, from, to) in cases {
        assert_eq!(str_replace(text, from, to), text.replace(from, to), "replace in {:?}", text);
    }
}

#[test]
fn replace_first_agrees_with_std() {
    let cases = [("RUN apt-get RUN ", "RUN ", ""), ("ON-DEVICE", "ON-DEVICE ", ""), ("abc", "", "x"), ("", "a", "b")];
    for (text, from, to) in cases {
        assert_eq!(str_replace_first(text, from, to), text.replacen(from, to, 1));
    }
}

#[test]
fn numbers_are_written_in_decimal() {
    assert_eq!(render_usize(0), "0");
    assert_eq!(render_usize(7), "7");
    assert_eq!(render_usize(8192), "8192");
    assert_eq!(render_usize(usize::MAX), usize::MAX.to_string());
    assert_eq!(render_u64(u64::MAX), "18446744073709551615");
    assert_eq!(render_i64(0), "0");
    assert_eq!(render_i64(42), "42");
    assert_eq!(render_i64(-17), "-17");
    assert_eq!(render_i64(i64::MIN), "-9223372036854775808");
    assert_eq!(render_i64(i64::MAX), "9223372036854775807");
}

#[test]
fn numbers_are_read_as_std_reads_them() {
    for text in ["0", "8192", "+15", "007", "", "+", "-1", "12a", " 12", "1 ", "18446744073709551615", "18446744073709551616", "99999999999999999999999"] {
        assert_eq!(parse_usize(text), text.parse::<usize>().ok(), "parse of {:?}", text);
    }
}
