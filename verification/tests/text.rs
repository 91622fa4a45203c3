use shipcat::keyed::reversed;
use shipcat::secrets::{kube_name, kube_secret_reference};
use shipcat::text::{
    chars_of, contains_char, ends_with, has_char, has_prefix, has_suffix, join2, join3,
    replace_char, same_chars, same_text, split, starts_with, string_of, trim_char,
};

fn chars(s: &str) -> Vec<char> {
    s.chars().collect()
}

fn text(parts: Vec<Vec<char>>) -> Vec<String> {
    parts.into_iter().map(|p| p.into_iter().collect()).collect()
}

#[test]
fn strings_and_characters() {
    assert_eq!(chars_of("héllo"), vec!['h', 'é', 'l', 'l', 'o']);
    assert_eq!(chars_of(""), Vec::<char>::new());
    assert_eq!(string_of(&chars("héllo")), "héllo");
    assert_eq!(string_of(&vec![]), "");
    assert_eq!(string_of(&chars_of("a-b_c")), "a-b_c");
}

#[test]
fn equality_of_texts() {
    assert!(same_text("abc", "abc"));
    assert!(same_text("", ""));
    assert!(!same_text("abc", "abd"));
    assert!(!same_text("abc", "ab"));
    assert!(same_chars(&chars("xy"), &chars("xy")));
    assert!(!same_chars(&chars("xy"), &chars("yx")));
}

#[test]
fn searching_in_texts() {
    assert!(contains_char("a.b", '.'));
    assert!(!contains_char("ab", '.'));
    assert!(has_char(&chars("ab"), 'b'));
    assert!(!has_char(&chars(""), 'b'));
    assert!(starts_with("IN_KUBE_SECRETS:x", "IN_KUBE_SECRETS"));
    assert!(starts_with("abc", ""));
    assert!(!starts_with("ab", "abc"));
    assert!(!starts_with("xbc", "abc"));
    assert!(ends_with("file.j2", ".j2"));
    assert!(ends_with("x", ""));
    assert!(!ends_with("j2", ".j2"));
    assert!(!ends_with("file.j2x", ".j2"));
    assert!(has_prefix(&chars("abc"), &chars("ab")));
    assert!(has_suffix(&chars("abc"), &chars("bc")));
    assert!(!has_suffix(&chars("abc"), &chars("ab")));
}

#[test]
fn joining_texts() {
    assert_eq!(join2("ab", "cd"), "abcd");
    assert_eq!(join2("", ""), "");
    assert_eq!(join3("a", "-", "b"), "a-b");
}

#[test]
fn splitting_texts() {
    assert_eq!(text(split(&chars("a-b"), '-')), vec!["a", "b"]);
    assert_eq!(text(split(&chars(""), '-')), vec![""]);
    assert_eq!(text(split(&chars("-"), '-')), vec!["", ""]);
    assert_eq!(text(split(&chars("a--b-"), '-')), vec!["a", "", "b", ""]);
    assert_eq!(text(split(&chars("abc"), '-')), vec!["abc"]);
}

#[test]
fn replacing_and_trimming() {
    assert_eq!(replace_char(&chars("a_b__c"), '_', '-'), chars("a-b--c"));
    assert_eq!(replace_char(&chars("abc"), '_', '-'), chars("abc"));
    assert_eq!(trim_char(&chars("//a/b//"), '/'), chars("a/b"));
    assert_eq!(trim_char(&chars("a/b"), '/'), chars("a/b"));
    assert_eq!(trim_char(&chars("///"), '/'), chars(""));
    assert_eq!(trim_char(&chars(""), '/'), chars(""));
}

#[test]
fn reversing() {
    assert_eq!(reversed(vec![1, 2, 3]), vec![3, 2, 1]);
    assert_eq!(reversed(Vec::<u8>::new()), Vec::<u8>::new());
}

#[test]
fn platform_secret_names() {
    assert_eq!(kube_secret_reference("my_api_key"), "kube-secret-my-api-key");
    assert_eq!(kube_secret_reference("plain"), "kube-secret-plain");
    assert_eq!(kube_name("MY_API_KEY"), "kube-secret-my-api-key");
    assert_eq!(kube_name("Straße_Ä"), "kube-secret-straße-ä");
}
