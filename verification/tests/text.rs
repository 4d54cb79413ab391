use openrpsee::text::{compare_names, is_white_space_char, remove_spaces, trimmed, NameOrder};

fn rust_order(a: &str, b: &str) -> NameOrder {
    if a < b {
        NameOrder::Less
    } else if a == b {
        NameOrder::Equal
    } else {
        NameOrder::Greater
    }
}

#[test]
fn compare_names_follows_string_order() {
    let names = [
        "", "a", "b", "ab", "abc", "abd", "B", "Z", "_", "myrpc_foo", "myrpc_bar", "é", "e",
        "ü", "z", "日本", "日", "\u{10000}", "\u{ffff}", "a b",
    ];
    for a in names.iter() {
        for b in names.iter() {
            assert_eq!(compare_names(a, b), rust_order(a, b), "{:?} vs {:?}", a, b);
        }
    }
}

#[test]
fn compare_names_exact_values() {
    assert_eq!(compare_names("foo", "foo"), NameOrder::Equal);
    assert_eq!(compare_names("foo", "foobar"), NameOrder::Less);
    assert_eq!(compare_names("foobar", "foo"), NameOrder::Greater);
    assert_eq!(compare_names("Zeta", "alpha"), NameOrder::Less);
    assert_eq!(compare_names("\u{e9}", "z"), NameOrder::Greater);
}

#[test]
fn white_space_matches_std() {
    for u in 0u32..0x3100 {
        if let Some(c) = char::from_u32(u) {
            assert_eq!(is_white_space_char(c), c.is_whitespace(), "U+{:04X}", u);
        }
    }
    for c in ['\u{feff}', '\u{180e}', '\u{200b}', 'x', '\u{10ffff}'] {
        assert_eq!(is_white_space_char(c), c.is_whitespace());
    }
}

#[test]
fn trimmed_matches_str_trim() {
    let samples = [
        "",
        "   ",
        "abc",
        "  abc  ",
        "\n\t # This method does the foo!\n\n And it does it really well!\n",
        "\u{3000}wide\u{2029}",
        "a b",
        " \u{85}x\u{a0} ",
    ];
    for s in samples.iter() {
        assert_eq!(trimmed(s), s.trim());
    }
    assert_eq!(trimmed("  x y  "), "x y".to_string());
}

#[test]
fn remove_spaces_matches_replace() {
    let samples = ["", " ", "my param", " lead and trail ", "no_spaces", "tab\tstays", "a  b"];
    for s in samples.iter() {
        assert_eq!(remove_spaces(s), s.replace(' ', ""));
    }
    assert_eq!(remove_spaces("my param name"), "myparamname".to_string());
}
