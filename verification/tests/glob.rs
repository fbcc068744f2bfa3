use nixpacks::error::Error;
use nixpacks::glob::Glob;

fn matches(pattern: &str, path: &str) -> bool {
    let glob = Glob::new(pattern).unwrap();
    let by_text = glob.matches(path);
    let by_chars = glob.matches_chars(&path.chars().collect());
    assert_eq!(by_text, by_chars);
    by_text
}

#[test]
fn literal_characters_stand_for_themselves() {
    assert!(matches("package.json", "package.json"));
    assert!(!matches("package.json", "package-json"));
    assert!(!matches("package.json", "package.json5"));
    assert!(!matches("package.json", "a/package.json"));
    assert!(matches("", ""));
    assert!(!matches("", "a"));
}

#[test]
fn question_mark_is_one_character_but_no_slash() {
    assert!(matches("a?c", "abc"));
    assert!(matches("a?c", "a\u{e9}c"));
    assert!(!matches("a?c", "ac"));
    assert!(!matches("a?c", "a/c"));
    assert!(!matches("a?c", "abbc"));
}

#[test]
fn star_stays_inside_a_component() {
    assert!(matches("*.ts", "index.ts"));
    assert!(matches("*.ts", ".ts"));
    assert!(!matches("*.ts", "src/index.ts"));
    assert!(matches("src/*.ts", "src/index.ts"));
    assert!(!matches("src/*.ts", "src/a/index.ts"));
    assert!(matches("*", "abc"));
    assert!(matches("*", ""));
    assert!(!matches("*", "a/b"));
    assert!(matches("a*b*c", "axxbyyc"));
    assert!(matches("a*b*c", "abbc"));
    assert!(!matches("a*b*c", "axxbyy"));
}

#[test]
fn double_star_slash_is_any_number_of_directories() {
    assert!(matches("**/index.[tj]s", "index.ts"));
    assert!(matches("**/index.[tj]s", "index.js"));
    assert!(matches("**/index.[tj]s", "src/index.ts"));
    assert!(matches("**/index.[tj]s", "a/b/c/index.js"));
    assert!(!matches("**/index.[tj]s", "index.rs"));
    assert!(!matches("**/index.[tj]s", "myindex.ts"));
    assert!(!matches("**/index.[tj]s", "a/myindex.ts"));
    assert!(!matches("**/index.[tj]s", "index.ts/x"));
    assert!(matches("**/*.ts", "a.ts"));
    assert!(matches("**/*.ts", "x/y/a.ts"));
    assert!(!matches("**/*.ts", "x/y/a.tsx"));
    assert!(matches("src/**/x", "src/x"));
    assert!(matches("src/**/x", "src/a/b/x"));
    assert!(!matches("src/**/x", "srcx"));
    assert!(!matches("src/**/x", "src/ax"));
}

#[test]
fn other_double_star_is_anything() {
    assert!(matches("**", ""));
    assert!(matches("**", "a/b/c"));
    assert!(matches("src/**", "src/a/b"));
    assert!(matches("src/**", "src/"));
    assert!(!matches("src/**", "src"));
    assert!(matches("a**/c", "ab/x/c"));
    assert!(!matches("a**/c", "c"));
}

#[test]
fn classes_hold_characters_and_ranges() {
    assert!(matches("[abc]", "b"));
    assert!(!matches("[abc]", "d"));
    assert!(!matches("[abc]", ""));
    assert!(!matches("[abc]", "ab"));
    assert!(matches("[a-c]x", "bx"));
    assert!(!matches("[a-c]x", "dx"));
    assert!(matches("[a-cx-z]", "y"));
    assert!(matches("[!a-c]", "d"));
    assert!(!matches("[!a-c]", "a"));
    assert!(matches("[^a-c]", "d"));
    assert!(!matches("[^a-c]", "c"));
    // a class never holds the slash
    assert!(!matches("[!a]", "/"));
    assert!(!matches("[/]", "/"));
    // a bracket right after the opening stands for itself
    assert!(matches("[]]", "]"));
    assert!(matches("[]a]", "a"));
    assert!(matches("[!]]", "a"));
    assert!(!matches("[!]]", "]"));
    // a hyphen at the edge stands for itself
    assert!(matches("[a-]", "-"));
    assert!(matches("[-a]", "-"));
    assert!(!matches("[a-]", "b"));
}

#[test]
fn an_unclosed_class_is_a_parse_error() {
    for bad in ["[", "[a", "a[b", "[]", "[!]", "*.[tj", "[a]["] {
        assert_eq!(Glob::new(bad).err(), Some(Error::Parse), "{:?}", bad);
    }
    for good in ["]", "a]", "[a]", "[]]", "[[]", "*?**"] {
        assert!(Glob::new(good).is_ok(), "{:?}", good);
    }
}
