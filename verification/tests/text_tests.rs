use stunlock::text::seconds_to_string;
use stunlock::text::to_string;

#[test]
fn zero_seconds_renders_empty() {
    assert_eq!(seconds_to_string(0), "");
}

#[test]
fn seconds_only() {
    assert_eq!(seconds_to_string(2), "2s");
    assert_eq!(seconds_to_string(8), "8s");
    assert_eq!(seconds_to_string(32), "32s");
    assert_eq!(seconds_to_string(59), "59s");
}

#[test]
fn minutes_and_seconds() {
    assert_eq!(seconds_to_string(128), "2m 8s");
    assert_eq!(seconds_to_string(60), "1m ");
    assert_eq!(seconds_to_string(61), "1m 1s");
}

#[test]
fn hours_minutes_seconds() {
    assert_eq!(seconds_to_string(3600), "1h ");
    assert_eq!(seconds_to_string(3661), "1h 1m 1s");
    assert_eq!(seconds_to_string(21600), "6h ");
    assert_eq!(seconds_to_string(7322), "2h 2m 2s");
}

#[test]
fn to_string_renders_displayable_values() {
    assert_eq!(to_string(42u64), "42");
    assert_eq!(to_string("abc"), "abc");
}
