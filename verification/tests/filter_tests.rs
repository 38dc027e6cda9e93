use menma::filter::is_include_these_tags;

#[test]
fn is_include_these_tags_test() {
    assert_eq!(
        is_include_these_tags(
            &vec!["foo".to_string(), "bar".to_string()],
            &vec!["foo".to_string(), "bar".to_string()]
        ),
        true
    );
    assert_eq!(
        is_include_these_tags(
            &vec!["foo".to_string(), "bar".to_string()],
            &vec!["foo".to_string()]
        ),
        false
    );
    assert_eq!(
        is_include_these_tags(
            &vec!["foo".to_string()],
            &vec!["foo".to_string(), "bar".to_string()]
        ),
        true
    );
}

fn strings(items: &[&str]) -> Vec<String> {
    items.iter().map(|s| s.to_string()).collect()
}

#[test]
fn all_token_keeps_every_memo() {
    assert!(is_include_these_tags(&strings(&["all"]), &strings(&["foo"])));
    assert!(is_include_these_tags(&strings(&["all"]), &strings(&[])));
    assert!(is_include_these_tags(&strings(&["zzz", "all"]), &strings(&["foo"])));
    assert!(is_include_these_tags(&strings(&["all", "zzz"]), &strings(&[])));
}

#[test]
fn token_that_holds_all_keeps_every_memo() {
    assert!(is_include_these_tags(&strings(&["wallet"]), &strings(&["foo"])));
    assert!(is_include_these_tags(&strings(&["small"]), &strings(&[])));
    assert!(!is_include_these_tags(&strings(&["al"]), &strings(&["foo"])));
    assert!(!is_include_these_tags(&strings(&["a", "ll"]), &strings(&["foo"])));
}

#[test]
fn two_tokens_need_both() {
    let memo = strings(&["rust", "verus", "notes"]);
    assert!(is_include_these_tags(&strings(&["rust", "verus"]), &memo));
    assert!(is_include_these_tags(&strings(&["verus", "rust"]), &memo));
    assert!(!is_include_these_tags(&strings(&["rust", "java"]), &memo));
    assert!(!is_include_these_tags(&strings(&["java", "rust"]), &memo));
    assert!(!is_include_these_tags(&strings(&["java", "go"]), &memo));
    assert!(is_include_these_tags(&strings(&["rust", "rust"]), &memo));
}

#[test]
fn token_is_met_by_containment() {
    assert!(is_include_these_tags(&strings(&["a"]), &strings(&["cat"])));
    assert!(is_include_these_tags(&strings(&["at"]), &strings(&["cat"])));
    assert!(is_include_these_tags(&strings(&["cat"]), &strings(&["cat"])));
    assert!(!is_include_these_tags(&strings(&["cats"]), &strings(&["cat"])));
    assert!(!is_include_these_tags(&strings(&["ct"]), &strings(&["cat"])));
    assert!(is_include_these_tags(&strings(&["ru", "st"]), &strings(&["rust"])));
}

#[test]
fn memo_without_tags_is_not_kept() {
    assert!(!is_include_these_tags(&strings(&["foo"]), &strings(&[])));
    assert!(!is_include_these_tags(&strings(&[""]), &strings(&[])));
}

#[test]
fn empty_token_is_met_by_any_tag() {
    assert!(is_include_these_tags(&strings(&[""]), &strings(&["x"])));
    assert!(is_include_these_tags(&strings(&[""]), &strings(&[""])));
}

#[test]
fn query_without_tokens_keeps_every_memo() {
    assert!(is_include_these_tags(&strings(&[]), &strings(&["foo"])));
    assert!(is_include_these_tags(&strings(&[]), &strings(&[])));
}

#[test]
fn order_does_not_matter() {
    let a = is_include_these_tags(&strings(&["x", "y"]), &strings(&["1y", "2x", "3"]));
    let b = is_include_these_tags(&strings(&["y", "x"]), &strings(&["3", "2x", "1y"]));
    assert_eq!(a, true);
    assert_eq!(b, true);
    let c = is_include_these_tags(&strings(&["x", "z"]), &strings(&["1y", "2x", "3"]));
    let d = is_include_these_tags(&strings(&["z", "x"]), &strings(&["3", "1y", "2x"]));
    assert_eq!(c, false);
    assert_eq!(d, false);
}

#[test]
fn tokens_are_compared_by_character() {
    assert!(is_include_these_tags(&strings(&["本"]), &strings(&["日本語"])));
    assert!(!is_include_these_tags(&strings(&["本日"]), &strings(&["日本語"])));
}
