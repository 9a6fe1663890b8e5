use at_gateway::urc::{find_notifications, is_notification, notifies_client};

#[test]
fn a_mark_makes_a_notification() {
    assert!(is_notification("+CMTI: \"ME\",1"));
    assert!(is_notification("^HCSQ:\"LTE\",40"));
    assert!(is_notification("  +CLIP: \"123\"  "));
    assert!(!is_notification("OK"));
    assert!(!is_notification("   "));
    assert!(!is_notification(""));
}

#[test]
fn keep_alive_noise_is_no_notification() {
    assert!(!is_notification("+ping"));
    assert!(!is_notification("^PiNg"));
    assert!(!is_notification("+KEEPINGS"));
    assert!(is_notification("+pin g"));
}

#[test]
fn lower_case_goes_beyond_ascii() {
    assert_eq!("P\u{130}NG+".to_lowercase(), "pi\u{307}ng+");
    assert!(is_notification("P\u{130}NG+"));
    assert!(!is_notification("\u{c4}PING+"));
}

#[test]
fn the_lower_case_form_decides_on_noise() {
    assert!(notifies_client("+X", "+x"));
    assert!(!notifies_client("+X", "+ping"));
    assert!(!notifies_client("", "+x"));
    assert!(!notifies_client("x", "x"));
}

#[test]
fn notifications_are_lines_as_they_stand() {
    let text = "\r\n+CMTI: 1\r\nOK\r\nping\r\n  ^RSSI:20 \r\n+PING\r\nRING\r\n+LAST\r";
    assert_eq!(
        find_notifications(text),
        vec!["+CMTI: 1".to_string(), "  ^RSSI:20 ".to_string(), "+LAST\r".to_string()]
    );
    assert_eq!(find_notifications(""), Vec::<String>::new());
}

#[test]
fn white_space_around_a_line_does_not_matter() {
    for line in ["+CMTI: 1", "^PING", "+\u{3a3}PING", "A\u{3a3}+", "RING", ""] {
        for (a, b) in [(" ", ""), ("", "\t\r"), ("\u{a0}\u{2028}", "\u{3000}"), ("\u{85}", " ")] {
            let padded = format!("{}{}{}", a, line, b);
            assert_eq!(is_notification(&padded), is_notification(line));
        }
    }
    assert!(!is_notification(" pi ng "));
    assert!(is_notification(" +pi ng "));
}

#[test]
fn white_space_around_a_text_is_lowered_apart() {
    let spaces = "\t\n\u{b}\u{c}\r \u{85}\u{a0}\u{1680}\u{2000}\u{2001}\u{2002}\u{2003}\u{2004}\
        \u{2005}\u{2006}\u{2007}\u{2008}\u{2009}\u{200a}\u{2028}\u{2029}\u{202f}\u{205f}\u{3000}";
    let words = ["", "\u{3a3}", "A\u{3a3}", "\u{3a3}A", "ABCDEFGHIJKLMNOPQRSTUVWXYZABCDEF\u{3a3}"];
    for word in words {
        let lower = word.to_lowercase();
        for c in spaces.chars() {
            for n in 1..20 {
                let pad: String = std::iter::repeat(c).take(n).collect();
                let padded = format!("{}{}{}", pad, word, pad);
                assert_eq!(padded.to_lowercase(), format!("{}{}{}", pad, lower, pad));
            }
        }
    }
}
