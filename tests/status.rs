use adrscope::status::decode_status;
use adrscope::{Status, StatusWarnings};

#[test]
fn test_status_as_str() {
    assert_eq!(Status::Proposed.as_str(), "proposed");
    assert_eq!(Status::Accepted.as_str(), "accepted");
    assert_eq!(Status::Deprecated.as_str(), "deprecated");
    assert_eq!(Status::Superseded.as_str(), "superseded");
}

#[test]
fn test_status_default() {
    assert_eq!(Status::default(), Status::Proposed);
}

#[test]
fn test_status_from_str() {
    assert_eq!("proposed".parse::<Status>().ok(), Some(Status::Proposed));
    assert_eq!("ACCEPTED".parse::<Status>().ok(), Some(Status::Accepted));
    assert_eq!("Deprecated".parse::<Status>().ok(), Some(Status::Deprecated));
    assert!("invalid".parse::<Status>().is_err());
}

#[test]
fn test_status_display() {
    assert_eq!(Status::Accepted.to_string(), "accepted");
}

#[test]
fn test_status_css_class() {
    assert_eq!(Status::Proposed.css_class(), "status-proposed");
    assert_eq!(Status::Accepted.css_class(), "status-accepted");
    assert_eq!(Status::Deprecated.css_class(), "status-deprecated");
    assert_eq!(Status::Superseded.css_class(), "status-superseded");
}

#[test]
fn test_status_color() {
    assert_eq!(Status::Proposed.color(), "#f59e0b");
    assert_eq!(Status::Accepted.color(), "#10b981");
    assert_eq!(Status::Deprecated.color(), "#ef4444");
    assert_eq!(Status::Superseded.color(), "#6b7280");
}

#[test]
fn test_status_all() {
    let all = Status::all();
    assert_eq!(all.len(), 4);
    assert!(all.contains(&Status::Proposed));
    assert!(all.contains(&Status::Accepted));
    assert!(all.contains(&Status::Deprecated));
    assert!(all.contains(&Status::Superseded));
}

#[test]
fn unknown_status_warns_once_across_letter_cases() {
    let mut warnings = StatusWarnings::new();
    let (a, wa) = decode_status(Some("published"), &mut warnings);
    let (b, wb) = decode_status(Some("PUBLISHED"), &mut warnings);
    let (c, wc) = decode_status(Some("Published"), &mut warnings);
    assert_eq!(a, Status::Proposed);
    assert_eq!(b, Status::Proposed);
    assert_eq!(c, Status::Proposed);
    assert_eq!(wa, Some("published".to_string()));
    assert_eq!(wb, None);
    assert_eq!(wc, None);
    assert!(warnings.contains("published"));
}

#[test]
fn known_and_empty_statuses_do_not_warn() {
    let mut warnings = StatusWarnings::new();
    assert_eq!(decode_status(Some("Superseded"), &mut warnings), (Status::Superseded, None));
    assert_eq!(decode_status(Some(""), &mut warnings), (Status::Proposed, None));
    assert_eq!(decode_status(None, &mut warnings), (Status::Proposed, None));
    assert!(!warnings.contains(""));
}

#[test]
fn status_parse_lowercases() {
    assert_eq!(Status::parse("SuPeRsEdEd"), Some(Status::Superseded));
    assert_eq!(Status::from_lowercase("Accepted"), None);
    assert_eq!(Status::from_lowercase("accepted"), Some(Status::Accepted));
}
