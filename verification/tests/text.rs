use cargo_driver::sorted::SortedTexts;
use cargo_driver::text::{chars_less, chars_of, ends_with, same_chars, same_text};

fn chars(s: &str) -> Vec<char> {
    s.chars().collect()
}

#[test]
fn characters_of_a_string() {
    assert_eq!(chars_of(""), Vec::<char>::new());
    assert_eq!(chars_of("añ→z"), ['a', 'ñ', '→', 'z']);
    assert_eq!(chars_of("a b"), ['a', ' ', 'b']);
}

#[test]
fn equality_goes_by_characters() {
    assert!(same_text("", ""));
    assert!(same_text("bin", "bin"));
    assert!(!same_text("bin", "bins"));
    assert!(!same_text("bin", "bim"));
    assert!(!same_text("bin", "Bin"));
    assert!(same_chars(&chars("lib"), &chars("lib")));
    assert!(!same_chars(&chars("lib"), &chars("")));
}

#[test]
fn suffixes() {
    assert!(ends_with("lib", "lib"));
    assert!(ends_with("cdylib", "lib"));
    assert!(ends_with("anything", ""));
    assert!(ends_with("", ""));
    assert!(!ends_with("ib", "lib"));
    assert!(!ends_with("library", "lib"));
    assert!(!ends_with("", "lib"));
    assert!(!ends_with("liB", "lib"));
}

#[test]
fn lexicographic_order_agrees_with_the_standard_library() {
    let texts = [
        "", "a", "A", "aa", "ab", "b", "a/b", "a-b", "a.rs", "é", "z", "zz", "→", "\u{10FFFF}",
        "src/lib.rs", "src/bin/tool.rs", "src",
    ];
    for a in texts {
        for b in texts {
            assert_eq!(chars_less(&chars(a), &chars(b)), a < b);
        }
    }
}

#[test]
fn sorted_texts_keep_keys_in_order_and_once() {
    let mut sorted: SortedTexts<u32> = SortedTexts::new();
    assert_eq!(sorted.len(), 0);
    assert!(sorted.insert("m", 1));
    assert!(sorted.insert("a", 2));
    assert!(sorted.insert("z", 3));
    assert!(!sorted.insert("m", 4));
    assert!(sorted.insert("", 5));
    assert!(sorted.insert("mm", 6));
    assert!(!sorted.insert("", 7));
    assert_eq!(sorted.len(), 5);
    assert_eq!(sorted.into_items(), [5, 2, 1, 6, 3]);
}
