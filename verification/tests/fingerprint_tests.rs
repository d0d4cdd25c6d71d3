use stunlock::fingerprint::hash;
use stunlock::fingerprint::hash_scoped;
use stunlock::fingerprint::normalize;

#[test]
fn normalization_ignores_case_and_punctuation() {
    assert_eq!(hash("SPAM!!"), hash("spam"));
    assert_eq!(hash("s p a m"), hash("spam"));
    assert_eq!(hash("S-p.A;m?"), hash("spam"));
}

#[test]
fn normalization_strips_bracketed_segments() {
    assert_eq!(hash("hello <@123456> world"), hash("helloworld"));
    assert_eq!(hash("<:emoji:99> spam <#42>"), hash("spam"));
}

#[test]
fn unclosed_bracket_drops_only_itself() {
    assert_eq!(hash("abc<def"), hash("abcdef"));
}

#[test]
fn normalize_output_is_lowercase_alphanumeric() {
    let n = normalize("Hey! <@55> You2..");
    assert_eq!(n, b"heyyou2".to_vec());
}

#[test]
fn empty_normalized_text_still_fingerprints() {
    assert_eq!(hash("!!!"), hash(""));
    assert_eq!(hash("?!?"), hash("..."));
}

#[test]
fn hash_is_deterministic() {
    assert_eq!(hash("repeated content"), hash("repeated content"));
    assert_eq!(hash_scoped("s", "text", 7, 9), hash_scoped("s", "text", 7, 9));
}

#[test]
fn different_content_gives_different_fingerprints() {
    assert_ne!(hash("abc"), hash("cba"));
    assert_ne!(hash("spam"), hash("spamspam"));
}

#[test]
fn scoped_fingerprint_differs_from_global() {
    assert_ne!(hash_scoped("salt", "spam", 1, 2), hash("spam"));
}

#[test]
fn distinct_scopes_give_distinct_fingerprints() {
    assert_ne!(
        hash_scoped("salt", "spam", 1, 2),
        hash_scoped("salt", "spam", 1, 3)
    );
    assert_ne!(
        hash_scoped("salt", "spam", 1, 2),
        hash_scoped("salt", "spam", 2, 2)
    );
    assert_ne!(
        hash_scoped("salta", "spam", 1, 2),
        hash_scoped("saltb", "spam", 1, 2)
    );
}
