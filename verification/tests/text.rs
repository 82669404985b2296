use vocieplayer::text::{
    contains_text, decimal_text, has_char, is_text, list_contains, list_eq, sort_texts, split_parts, str_le,
    text_eq, trim,
};

fn strings(list: &[&str]) -> Vec<String> {
    list.iter().map(|s| s.to_string()).collect()
}

#[test]
fn trim_removes_white_space_of_all_kinds() {
    assert_eq!(trim("  a b\t\n"), "a b");
    assert_eq!(trim("\u{3000}默认\u{85}\u{a0}"), "默认");
    assert_eq!(trim("\u{200b}x"), "\u{200b}x");
    assert_eq!(trim(" \r\n "), "");
    assert_eq!(trim(""), "");
}

#[test]
fn white_space_agrees_with_the_standard_library() {
    for u in 0..0x11_0000u32 {
        if let Some(c) = char::from_u32(u) {
            let s = format!("{c}x{c}");
            let listed = matches!(u, 0x09..=0x0d | 0x20 | 0x85 | 0xa0 | 0x1680 | 0x2000..=0x200a
                | 0x2028 | 0x2029 | 0x202f | 0x205f | 0x3000);
            assert_eq!(c.is_whitespace(), listed);
            if listed {
                assert_eq!(trim(&s), "x");
            }
        }
    }
}

#[test]
fn ascii_case_agrees_with_the_standard_library() {
    for u in 0..0x80u8 {
        let c = u as char;
        let s = format!("{c}{c}");
        assert_eq!(s.to_lowercase(), s.to_ascii_lowercase());
        assert_eq!(s.to_uppercase(), s.to_ascii_uppercase());
    }
}

#[test]
fn split_parts_trims_and_drops_empty_parts() {
    assert_eq!(split_parts("Ctrl + Alt+ S", '+'), strings(&["Ctrl", "Alt", "S"]));
    assert_eq!(split_parts("++a+ +", '+'), strings(&["a"]));
    assert_eq!(split_parts("", '+'), strings(&[]));
    assert_eq!(split_parts("one", '+'), strings(&["one"]));
}

#[test]
fn contains_text_finds_any_place() {
    assert!(contains_text("CABLE Input (VB-Audio Virtual Cable)", "CABLE Input"));
    assert!(contains_text("x CABLE Input", "CABLE Input"));
    assert!(contains_text("CABLE Input", "CABLE Input"));
    assert!(!contains_text("CABLE Output", "CABLE Input"));
    assert!(!contains_text("cable input", "CABLE Input"));
    assert!(!contains_text("CABLE", "CABLE Input"));
    assert!(contains_text("扬声器", "声"));
    assert!(contains_text("", ""));
    assert!(contains_text("aab", "ab"));
}

#[test]
fn order_is_that_of_the_standard_library() {
    let words = ["", "a", "ab", "b", "B", "默认", "默", "\u{10000}", "\u{ffff}", "Z", "é"];
    for a in words {
        for b in words {
            assert_eq!(str_le(a, b), a <= b);
        }
    }
}

#[test]
fn sort_texts_sorts_and_keeps_all() {
    let list = strings(&["b", "默认", "a", "", "b", "B"]);
    let mut expected = list.clone();
    expected.sort();
    assert_eq!(sort_texts(list), expected);
    assert_eq!(sort_texts(Vec::new()), Vec::<String>::new());
}

#[test]
fn decimal_text_writes_numbers() {
    assert_eq!(decimal_text(0), "0");
    assert_eq!(decimal_text(9), "9");
    assert_eq!(decimal_text(10), "10");
    assert_eq!(decimal_text(2048), "2048");
    assert_eq!(decimal_text(u128::MAX), format!("{}", u128::MAX));
}

#[test]
fn comparisons_go_by_characters() {
    assert!(text_eq("默认", "默认"));
    assert!(!text_eq("a", "A"));
    assert!(is_text(&Some("a".to_string()), "a"));
    assert!(!is_text(&Some("a".to_string()), "b"));
    assert!(!is_text(&None, ""));
    assert!(has_char("a/b", '/'));
    assert!(!has_char("ab", '/'));
    let list = strings(&["a", "b"]);
    assert!(list_contains(&list, "b"));
    assert!(!list_contains(&list, "c"));
    assert!(list_eq(&list, &strings(&["a", "b"])));
    assert!(!list_eq(&list, &strings(&["b", "a"])));
    assert!(!list_eq(&list, &strings(&["a"])));
}

#[test]
fn ascii_case_makes_no_difference_beside_other_letters() {
    let words = ["ſpace", "AΣ", "aΣb", "ΣA", "a\u{300}Σ", "ßa", "ıA", "İi", "é-Zz", "ǅAx", "默Ab"];
    for w in words {
        for other in [w.to_ascii_lowercase(), w.to_ascii_uppercase()] {
            assert_eq!(w.to_lowercase(), other.to_lowercase());
            assert_eq!(w.to_uppercase(), other.to_uppercase());
        }
    }
    for u in 0x80..0x11_0000u32 {
        if let Some(c) = char::from_u32(u) {
            for (x, y) in [(format!("A{c}"), format!("a{c}")), (format!("{c}A"), format!("{c}a"))] {
                assert_eq!(x.to_lowercase(), y.to_lowercase());
                assert_eq!(x.to_uppercase(), y.to_uppercase());
            }
        }
    }
}
