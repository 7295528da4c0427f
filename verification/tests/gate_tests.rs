use schluessel::config::password_or_default;
use schluessel::gate::{authenticate, Decision};

#[test]
fn exact_match_is_granted() {
    let expected = password_or_default(None);
    assert_eq!(expected, "password");
    assert_eq!(authenticate(&"password".to_string(), &expected), Decision::Granted);
}

#[test]
fn any_other_string_is_denied() {
    let expected = password_or_default(None);
    assert_eq!(authenticate(&"wrong".to_string(), &expected), Decision::Denied);
    assert_eq!(authenticate(&"".to_string(), &expected), Decision::Denied);
    assert_eq!(authenticate(&"passwords".to_string(), &expected), Decision::Denied);
    assert_eq!(authenticate(&"passwor".to_string(), &expected), Decision::Denied);
}

#[test]
fn comparison_is_case_sensitive_with_no_trimming() {
    let expected = password_or_default(None);
    assert_eq!(authenticate(&"Password".to_string(), &expected), Decision::Denied);
    assert_eq!(authenticate(&"PASSWORD".to_string(), &expected), Decision::Denied);
    assert_eq!(authenticate(&" password".to_string(), &expected), Decision::Denied);
    assert_eq!(authenticate(&"password ".to_string(), &expected), Decision::Denied);
}

#[test]
fn configured_password_replaces_the_default() {
    let expected = password_or_default(Some("hunter2".to_string()));
    assert_eq!(authenticate(&"hunter2".to_string(), &expected), Decision::Granted);
    assert_eq!(authenticate(&"password".to_string(), &expected), Decision::Denied);
}
