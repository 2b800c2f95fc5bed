use sieve_kit::error::FilterError;
use sieve_kit::types::{Action, FilterRule, Filterable, LogicOp, Notify, Vacation};

#[test]
fn vacation_validate_rejects_empty_message() {
    let vacation = Vacation::new("");
    assert!(matches!(
        vacation.validate(),
        Err(FilterError::InvalidVacation { reason }) if reason.contains("message")
    ));
    assert!(Vacation::new("body").validate().is_ok());
}

#[test]
fn vacation_validate_rejects_zero_days() {
    let vacation = Vacation::new("body").with_days(0);
    assert!(matches!(
        vacation.validate(),
        Err(FilterError::InvalidVacation { reason }) if reason.contains("days")
    ));
    assert!(vacation.with_days(1).validate().is_ok());
}

#[test]
fn vacation_builders_set_fields_and_defaults() {
    let vacation = Vacation::new("away")
        .with_days(3)
        .with_subject("OOO")
        .with_from("me@example.com");
    assert_eq!(vacation.days, 3);
    assert_eq!(vacation.subject.as_deref(), Some("OOO"));
    assert_eq!(vacation.from.as_deref(), Some("me@example.com"));
    assert_eq!(vacation.message, "away");
    // RFC 5230 default when :days is omitted.
    assert_eq!(Vacation::new("x").days, 7);
}

#[test]
fn rule_validate_checks_vacation_actions() {
    let rule = FilterRule {
        id: "r".into(),
        name: "r".into(),
        enabled: true,
        priority: 0,
        conditions: vec![],
        condition_logic: LogicOp::And,
        actions: vec![Action::Vacation(Vacation::new(""))],
    };
    assert!(matches!(
        rule.validate(),
        Err(FilterError::InvalidVacation { .. })
    ));
}

#[test]
fn notify_scheme_extraction() {
    assert_eq!(
        Notify::new("MAILTO:x@y", "").scheme().as_deref(),
        Some("mailto")
    );
    assert_eq!(
        Notify::new("xmpp:user@host", "").scheme().as_deref(),
        Some("xmpp")
    );
    assert_eq!(Notify::new("no-scheme", "").scheme(), None);
    assert_eq!(Notify::new(":empty-scheme", "").scheme(), None);
    assert!(Notify::new("mailto:x@y", "").has_known_scheme());
    assert!(Notify::new("https://hook.example", "").has_known_scheme());
    assert!(!Notify::new("carrier-pigeon:perth", "").has_known_scheme());
}

/// A message type that supplies only the required fields.
struct Bare;

impl Filterable for Bare {
    fn from(&self) -> &str {
        ""
    }
    fn to(&self) -> &str {
        ""
    }
    fn cc(&self) -> &str {
        ""
    }
    fn subject(&self) -> &str {
        ""
    }
    fn body(&self) -> &str {
        ""
    }
    fn has_attachment(&self) -> bool {
        false
    }
}

#[test]
fn filterable_envelope_defaults_to_none() {
    let bare = Bare;
    assert_eq!(bare.envelope_from(), None);
    assert_eq!(bare.envelope_to(), None);
}
