use frontary::password::{CheckResult, is_adjacent, PASSWORD_MIN_LEN};
use frontary::verification::{InvalidMessage, Verification, verify_password};
use frontary::{InvalidPasswordKind, PasswordRequirement, check_password_requirements, invalid_password};

fn results(passed: [bool; 7]) -> Vec<CheckResult> {
    let reqs = [
        PasswordRequirement::NoSpace,
        PasswordRequirement::NoControlCharacter,
        PasswordRequirement::MinimumLength(PASSWORD_MIN_LEN),
        PasswordRequirement::AtLeastOneLowercase,
        PasswordRequirement::AtLeastOneUppercase,
        PasswordRequirement::AtLeastOneDigit,
        PasswordRequirement::AtLeastOneSpecialCharacter,
    ];
    reqs.iter().zip(passed.iter()).map(|(r, p)| CheckResult { requirement: *r, passed: *p }).collect()
}

#[test]
fn minimum_length_is_eight() {
    assert_eq!(PASSWORD_MIN_LEN, 8);
}

#[test]
fn strong_password_meets_every_requirement() {
    assert!(check_password_requirements("Abcdef1!") == results([true; 7]));
}

#[test]
fn short_lowercase_password_fails_several_requirements() {
    assert!(check_password_requirements("abc") == results([true, true, false, true, false, false, false]));
}

#[test]
fn space_and_control_characters_are_reported() {
    let r = check_password_requirements("Ab 1!xyzw");
    assert!(!r[0].passed);
    assert!(r[1].passed);
    let r = check_password_requirements("Ab1!\u{7}xyzw");
    assert!(r[0].passed);
    assert!(!r[1].passed);
}

#[test]
fn invalid_password_accepts_a_strong_password() {
    assert!(invalid_password("Abcdefg1!") == None);
}

#[test]
fn invalid_password_reports_each_broken_rule() {
    assert!(invalid_password("Ab1!\u{7}xyzw") == Some(InvalidPasswordKind::HasControlCharacter));
    assert!(invalid_password("Abc 1!") == Some(InvalidPasswordKind::HasSpace));
    assert!(invalid_password("Abc1!") == Some(InvalidPasswordKind::TooShort));
    assert!(invalid_password("ABCDEFG1!") == Some(InvalidPasswordKind::NoLowercaseLetter));
    assert!(invalid_password("abcdefg1!") == Some(InvalidPasswordKind::NoUppercaseLetter));
    assert!(invalid_password("Abcdefgh!") == Some(InvalidPasswordKind::NoNumber));
    assert!(invalid_password("Abcdefg12") == Some(InvalidPasswordKind::NoSymbol));
}

#[test]
fn refused_exactly_when_a_requirement_fails() {
    for p in ["Abcdefg1!", "abc", "Abc 1!", "Abcdefg12", "ABCDEFG1!", "Ab1!\u{7}xyzw", ""] {
        let refused = invalid_password(p).is_some();
        let failed = check_password_requirements(p).iter().any(|r| !r.passed);
        assert_eq!(refused, failed, "password {p:?}");
    }
}

#[test]
fn adjacent_keyboard_runs_are_found() {
    assert!(is_adjacent("xx1234yy"));
    assert!(is_adjacent("qwer"));
    assert!(is_adjacent("rewq"));
    assert!(is_adjacent("mnbv"));
    assert!(is_adjacent("ASDF"));
    assert!(!is_adjacent("abc"));
    assert!(!is_adjacent("qwe"));
    assert!(!is_adjacent("Qwer"));
}

#[test]
fn verify_password_needs_a_matching_confirmation() {
    assert!(
        verify_password("Abcdefg1!", "Abcdefg1?")
            == Verification::Invalid(InvalidMessage::InvalidPassword(InvalidPasswordKind::NotMatch))
    );
    assert!(verify_password("Abcdefg1!", "Abcdefg1!") == Verification::Valid);
    assert!(
        verify_password("abc", "abc")
            == Verification::Invalid(InvalidMessage::InvalidPassword(InvalidPasswordKind::TooShort))
    );
}
