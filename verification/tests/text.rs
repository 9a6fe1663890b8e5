use at_gateway::text::{
    contains, contains_char, ends_with, find, is_white, join, lines, remove_all, starts_with,
    strip_prefixes, to_chars, to_decimal, to_text, trim, trim_end, trim_start,
};

const SAMPLES: [&str; 14] = [
    "",
    " ",
    "\r\n",
    "\r",
    "\n\n",
    "OK",
    "  OK\r\n",
    "a\nb",
    "a\r\nb\r\n",
    "a\n\nb\r",
    "ping",
    "pipingng ping",
    "\u{3000}AT+CSQ\u{a0}\r\r\n",
    "/5700//5700/x/5700/",
];

fn removed(s: &str, pat: &str) -> String {
    to_text(&remove_all(&to_chars(s), &to_chars(pat)))
}

#[test]
fn white_space_is_that_of_unicode() {
    for n in 0..=0x10ffffu32 {
        if let Some(c) = char::from_u32(n) {
            assert_eq!(is_white(c), c.is_whitespace(), "{:x}", n);
        }
    }
}

#[test]
fn trimming_takes_white_space_off() {
    for s in SAMPLES {
        let chars = to_chars(s);
        assert_eq!(to_text(trim(&chars)), s.trim());
        assert_eq!(to_text(trim_start(&chars)), s.trim_start());
        assert_eq!(to_text(trim_end(&chars)), s.trim_end());
    }
}

#[test]
fn trimming_twice_is_trimming_once() {
    for s in SAMPLES {
        let chars = to_chars(s);
        let once = trim(&chars);
        assert_eq!(trim(once), once);
    }
}

#[test]
fn lines_end_at_line_feeds() {
    for s in SAMPLES {
        let expected: Vec<String> = s.lines().map(|l| l.to_string()).collect();
        assert_eq!(lines(&to_chars(s)), expected);
    }
    assert_eq!(lines(&to_chars("a\r\nb\r")), vec!["a".to_string(), "b\r".to_string()]);
}

#[test]
fn removal_goes_from_left_to_right() {
    for s in SAMPLES {
        assert_eq!(removed(s, "ping"), s.replace("ping", ""));
        assert_eq!(removed(s, "\n"), s.replace("\n", ""));
    }
    assert_eq!(removed("pipingng", "ping"), "ping");
    assert_eq!(removed("aaa", "aa"), "a");
    assert_eq!(removed("abc", ""), "abc");
}

#[test]
fn prefixes_are_taken_off_repeatedly() {
    let prefix = to_chars("/5700/");
    for s in SAMPLES {
        assert_eq!(
            to_text(strip_prefixes(&to_chars(s), &prefix)),
            s.trim_start_matches("/5700/")
        );
    }
    assert_eq!(to_text(strip_prefixes(&to_chars("abc"), &to_chars(""))), "abc");
}

#[test]
fn searching_finds_what_is_there() {
    for s in SAMPLES {
        let chars = to_chars(s);
        for pat in ["", "OK", "ping", "\r\n", "/", "zz"] {
            let p = to_chars(pat);
            assert_eq!(contains(&chars, &p), s.contains(pat));
            assert_eq!(starts_with(&chars, &p), s.starts_with(pat));
            assert_eq!(ends_with(&chars, &p), s.ends_with(pat));
        }
        assert_eq!(contains_char(&chars, '\n'), s.contains('\n'));
    }
    assert_eq!(find(&to_chars("ab\ncd\n"), '\n'), 2);
    assert_eq!(find(&to_chars("abcd"), '\n'), 4);
}

#[test]
fn numbers_are_written_in_decimal() {
    for n in [0u16, 7, 9, 10, 99, 100, 8008, 20249, 65535] {
        assert_eq!(to_decimal(n), n.to_string());
    }
}

#[test]
fn joining_keeps_both_parts() {
    assert_eq!(join("SEND_ERROR: ", "gone"), "SEND_ERROR: gone");
    assert_eq!(join("", ""), "");
}
