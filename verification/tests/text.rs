use moleman::ports;
use moleman::strmap::StrMap;
use moleman::text;

fn strings(list: &[&str]) -> Vec<String> {
    list.iter().map(|s| s.to_string()).collect()
}

#[test]
fn chars_and_strings_go_together() {
    let chars = text::chars_of("aé…z");
    assert_eq!(chars, vec!['a', 'é', '…', 'z']);
    assert_eq!(text::string_of(&chars, 1, 3), "é…");
    assert_eq!(text::string_of(&chars, 2, 2), "");
}

#[test]
fn strings_compare_as_std_does() {
    let samples = ["", "a", "aa", "ab", "b", "B", "é", "z…", "日本"];
    for a in samples {
        for b in samples {
            assert_eq!(text::str_eq(a, b), a == b, "{a:?} {b:?}");
            assert_eq!(text::str_lt(a, b), a < b, "{a:?} {b:?}");
        }
    }
}

#[test]
fn numerals() {
    for n in [0u64, 1, 9, 10, 99, 100, 65535, u64::MAX] {
        assert_eq!(text::decimal(n), format!("{n}"));
    }
    for n in [0i64, -1, 59, -3600, i64::MAX, i64::MIN] {
        assert_eq!(text::signed(n), format!("{n}"));
    }
    for n in [0u32, 7, 8, 0o644, 0o777] {
        assert_eq!(text::octal(n), format!("{n:o}"));
    }
    assert_eq!(text::hex(&vec![0, 1, 0xab, 0xff]), "0001abff");
}

#[test]
fn blanks_are_those_of_std() {
    for u in 0u32..=0x3100 {
        if let Some(c) = char::from_u32(u) {
            assert_eq!(text::space(c), c.is_whitespace(), "{u:x}");
        }
    }
    assert!(!text::space('\u{feff}'));
    assert!(!text::space('\u{10ffff}'));
}

#[test]
fn trimming_and_cutting_agree_with_std() {
    let samples = ["", " ", "a", "  a b\t", "\n\na\r\nb\n", "x\r", "\u{2003}é\u{a0}", "a\n", "a\n\nb"];
    for s in samples {
        assert_eq!(text::trim(s), s.trim(), "{s:?}");
        assert_eq!(text::blank(s), s.trim().is_empty(), "{s:?}");
        let lines: Vec<String> = s.split('\n').map(|l| l.to_string()).collect();
        assert_eq!(text::lines(s), lines, "{s:?}");
    }
}

#[test]
fn last_entry_that_is_not_blank() {
    assert_eq!(text::last_nonblank(&strings(&["a", " b ", "", "\t"])), Some(" b ".to_string()));
    assert_eq!(text::last_nonblank(&strings(&["", " "])), None);
    assert_eq!(text::last_nonblank(&strings(&[])), None);
}

#[test]
fn padding_agrees_with_format() {
    for s in ["", "ab", "é…", "abcdef", "abcdefgh"] {
        assert_eq!(text::pad_right(s, 6), format!("{s:<6}"));
    }
}

#[test]
fn joining_and_prefixes() {
    assert_eq!(text::join(&strings(&["a", "b", "c"]), ", "), "a, b, c");
    assert_eq!(text::join(&strings(&["a"]), ", "), "a");
    assert_eq!(text::join(&strings(&[]), ", "), "");
    assert_eq!(text::strip_prefix("profile dev", "profile "), Some("dev".to_string()));
    assert_eq!(text::strip_prefix("profile", "profile "), None);
    assert_eq!(text::strip_prefix("x", ""), Some("x".to_string()));
}

#[test]
fn ports_parse_as_std_does() {
    let samples = [
        "", "0", "80", "+80", "-1", "65535", "65536", "99999999999", "00080", "8 0", " 80", "+", "٣", "8.0",
    ];
    for s in samples {
        assert_eq!(text::parse_u16(s), s.parse::<u16>().ok(), "{s:?}");
    }
}

#[test]
fn map_walks_its_keys_in_order() {
    let mut m: StrMap<u16> = StrMap::new();
    assert_eq!(m.len(), 0);
    m.insert("b".to_string(), 2);
    m.insert("a".to_string(), 1);
    m.insert("c".to_string(), 3);
    m.insert("b".to_string(), 20);
    assert_eq!(m.keys(), strings(&["a", "b", "c"]));
    assert_eq!(m.get("b"), Some(&20));
    assert_eq!(m.get("d"), None);
    assert_eq!(m.at(2), (&"c".to_string(), &3));
    m.remove("a");
    m.remove("zzz");
    assert_eq!(m.keys(), strings(&["b", "c"]));
    assert!(!m.contains_key("a"));
    assert!(m.contains_key("c"));
}

#[test]
fn first_free_port_is_the_least() {
    assert_eq!(ports::free_port(&vec![8009, 8011], 8009), Some(8010));
    assert_eq!(ports::free_port(&vec![8009, 8010, 8011], 8009), Some(8012));
    assert_eq!(ports::free_port(&vec![8010], 8009), Some(8009));
    assert_eq!(ports::free_port(&vec![], 0), Some(0));
    assert_eq!(ports::free_port(&vec![65535, 65534], 65534), None);
    assert_eq!(ports::free_port(&vec![65534], 65534), Some(65535));
}
