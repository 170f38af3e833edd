use polyndrome::validator::{check_polyndrome, invalid_index, PolyndromeError};

#[test]
fn test_short_validation() {
    assert_eq!(invalid_index("ab"), 0);
}

#[test]
fn test_shortest_possible_validation() {
    assert_eq!(invalid_index("axa"), -1);
}

#[test]
fn test_shortest_possible_failing_validation() {
    assert_eq!(invalid_index("abc"), 0);
}

#[test]
fn test_failing_validation() {
    assert_eq!(invalid_index("deadbeeaxfeebdaed"), 7);
}

#[test]
fn test_success_validation() {
    assert_eq!(invalid_index("deadbeefxfeebdaed"), -1);
}

#[test]
fn test_short_input() {
    assert_eq!(check_polyndrome("ab").is_err(), true);
}

#[test]
fn test_even_input() {
    assert_eq!(check_polyndrome("ababab").is_err(), true);
}

#[test]
fn test_valid_input() {
    assert_eq!(check_polyndrome("deadbeefxfeebdaed").is_ok(), true);
}

#[test]
fn test_shortest_valid_input() {
    assert_eq!(check_polyndrome("axa").is_ok(), true);
}

#[test]
fn too_short_strings_are_rejected() {
    assert_eq!(check_polyndrome(""), Err(PolyndromeError::TooShort));
    assert_eq!(check_polyndrome("a"), Err(PolyndromeError::TooShort));
    assert_eq!(check_polyndrome("ab"), Err(PolyndromeError::TooShort));
}

#[test]
fn even_length_strings_are_rejected() {
    assert_eq!(check_polyndrome("ababab"), Err(PolyndromeError::EvenLength));
    assert_eq!(check_polyndrome("abba"), Err(PolyndromeError::EvenLength));
    assert_eq!(check_polyndrome("aaaa"), Err(PolyndromeError::EvenLength));
}

#[test]
fn asymmetric_strings_report_the_lowest_index() {
    assert_eq!(check_polyndrome("abc"), Err(PolyndromeError::Asymmetric(0)));
    assert_eq!(
        check_polyndrome("deadbeeaxfeebdaed"),
        Err(PolyndromeError::Asymmetric(7))
    );
    assert_eq!(check_polyndrome("aacaba"), Err(PolyndromeError::EvenLength));
    assert_eq!(check_polyndrome("aacba"), Err(PolyndromeError::Asymmetric(1)));
}

#[test]
fn symmetric_odd_strings_are_valid() {
    assert_eq!(check_polyndrome("axa"), Ok(true));
    assert_eq!(check_polyndrome("aaa"), Ok(true));
    assert_eq!(check_polyndrome("racecar"), Ok(true));
    assert_eq!(check_polyndrome("deadbeefxfeebdaed"), Ok(true));
}

#[test]
fn scan_alone_accepts_short_and_even_strings() {
    assert_eq!(invalid_index(""), -1);
    assert_eq!(invalid_index("a"), -1);
    assert_eq!(invalid_index("aa"), -1);
    assert_eq!(invalid_index("abba"), -1);
    assert_eq!(invalid_index("abab"), 0);
}

#[test]
fn center_character_is_never_flagged() {
    assert_eq!(invalid_index("aba"), -1);
    assert_eq!(invalid_index("abcba"), -1);
    assert_eq!(check_polyndrome("abcba"), Ok(true));
}

#[test]
fn validation_is_idempotent() {
    let inputs = ["", "ab", "ababab", "abc", "axa", "deadbeefxfeebdaed", "deadbeeaxfeebdaed"];
    for input in inputs {
        assert_eq!(check_polyndrome(input), check_polyndrome(input));
        assert_eq!(invalid_index(input), invalid_index(input));
    }
}
