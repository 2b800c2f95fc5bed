use sieve_kit::actions::{PlannedAction, VacationReply, VacationTracker};
use sieve_kit::error::FilterError;
use sieve_kit::eval::{
    ascii_numeric_eq, evaluate_condition, evaluate_plan, evaluate_rule, field_value, glob_match,
    EvalContext, EvalWarning, RegexCache,
};
use sieve_kit::types::{
    Action, AddressPart, Condition, ConditionField, EnvelopePart, FilterRule, LogicOp,
    MailEnvelope, Notify, Operator, Vacation,
};


fn make_rule(conditions: Vec<Condition>, logic: LogicOp) -> FilterRule {
    FilterRule {
        id: "test-rule-1".to_string(),
        name: "Test Rule".to_string(),
        enabled: true,
        priority: 0,
        conditions,
        condition_logic: logic,
        actions: vec![],
    }
}

fn make_envelope() -> MailEnvelope {
    MailEnvelope {
        from: "alice@example.com".to_string(),
        to: "bob@example.com".to_string(),
        cc: String::new(),
        subject: "Hello World".to_string(),
        body: String::new(),
        has_attachment: false,
        envelope_from: None,
        envelope_to: None,
        headers: vec![],
    }
}

#[test]
fn contains_operator_matches_case_insensitive() {
    let rule = make_rule(
        vec![Condition {
            field: ConditionField::Subject,
            operator: Operator::Contains,
            value: "hello".to_string(),
            negate: false,
        }],
        LogicOp::And,
    );
    let msg = make_envelope();
    let cache = RegexCache::default();
    assert!(evaluate_rule(&rule, &msg, &cache));
}

#[test]
fn contains_operator_no_match() {
    let rule = make_rule(
        vec![Condition {
            field: ConditionField::Subject,
            operator: Operator::Contains,
            value: "nomatch".to_string(),
            negate: false,
        }],
        LogicOp::And,
    );
    let msg = make_envelope();
    let cache = RegexCache::default();
    assert!(!evaluate_rule(&rule, &msg, &cache));
}

#[test]
fn negate_inverts_result() {
    let rule = make_rule(
        vec![Condition {
            field: ConditionField::Subject,
            operator: Operator::Contains,
            value: "nomatch".to_string(),
            negate: true,
        }],
        LogicOp::And,
    );
    let msg = make_envelope();
    let cache = RegexCache::default();
    assert!(evaluate_rule(&rule, &msg, &cache));
}

#[test]
fn and_logic_requires_all() {
    let rule = make_rule(
        vec![
            Condition {
                field: ConditionField::Subject,
                operator: Operator::Contains,
                value: "hello".to_string(),
                negate: false,
            },
            Condition {
                field: ConditionField::From,
                operator: Operator::Contains,
                value: "nomatch".to_string(),
                negate: false,
            },
        ],
        LogicOp::And,
    );
    let msg = make_envelope();
    let cache = RegexCache::default();
    assert!(!evaluate_rule(&rule, &msg, &cache));
}

#[test]
fn or_logic_requires_any() {
    let rule = make_rule(
        vec![
            Condition {
                field: ConditionField::Subject,
                operator: Operator::Contains,
                value: "nomatch".to_string(),
                negate: false,
            },
            Condition {
                field: ConditionField::From,
                operator: Operator::Contains,
                value: "alice".to_string(),
                negate: false,
            },
        ],
        LogicOp::Or,
    );
    let msg = make_envelope();
    let cache = RegexCache::default();
    assert!(evaluate_rule(&rule, &msg, &cache));
}

#[test]
fn regex_condition_matches() {
    let rule = make_rule(
        vec![Condition {
            field: ConditionField::Subject,
            operator: Operator::Regex,
            value: r"(?i)hello\s+world".to_string(),
            negate: false,
        }],
        LogicOp::And,
    );
    let msg = make_envelope();
    let cache = RegexCache::default();
    assert!(evaluate_rule(&rule, &msg, &cache));
}

#[test]
fn regex_invalid_pattern_returns_false() {
    let rule = make_rule(
        vec![Condition {
            field: ConditionField::Subject,
            operator: Operator::Regex,
            value: "[invalid".to_string(),
            negate: false,
        }],
        LogicOp::And,
    );
    let msg = make_envelope();
    let cache = RegexCache::default();
    assert!(!evaluate_rule(&rule, &msg, &cache));
}

#[test]
fn glob_match_basic() {
    assert!(glob_match("hello*", "hello world"));
    assert!(glob_match("*world", "hello world"));
    assert!(glob_match("hello*world", "hello beautiful world"));
    assert!(glob_match("h?llo", "hello"));
    assert!(!glob_match("h?llo", "hllo"));
    assert!(glob_match("*", "anything"));
}

#[test]
fn disabled_rule_never_matches() {
    let mut rule = make_rule(
        vec![Condition {
            field: ConditionField::Subject,
            operator: Operator::Exists,
            value: String::new(),
            negate: false,
        }],
        LogicOp::And,
    );
    rule.enabled = false;
    let msg = make_envelope();
    let cache = RegexCache::default();
    assert!(!evaluate_rule(&rule, &msg, &cache));
}

#[test]
fn empty_conditions_never_match() {
    let rule = make_rule(vec![], LogicOp::And);
    let msg = make_envelope();
    let cache = RegexCache::default();
    assert!(!evaluate_rule(&rule, &msg, &cache));
}

#[test]
fn exists_operator() {
    let rule = make_rule(
        vec![Condition {
            field: ConditionField::Subject,
            operator: Operator::Exists,
            value: String::new(),
            negate: false,
        }],
        LogicOp::And,
    );
    let msg = make_envelope();
    let cache = RegexCache::default();
    assert!(evaluate_rule(&rule, &msg, &cache));
}

#[test]
fn body_condition() {
    let rule = make_rule(
        vec![Condition {
            field: ConditionField::Body,
            operator: Operator::Contains,
            value: "test".to_string(),
            negate: false,
        }],
        LogicOp::And,
    );
    let msg = MailEnvelope {
        body: "this is a test body".to_string(),
        ..make_envelope()
    };
    let cache = RegexCache::default();
    assert!(evaluate_rule(&rule, &msg, &cache));
}

#[test]
fn has_attachment_condition() {
    let rule = make_rule(
        vec![Condition {
            field: ConditionField::HasAttachment,
            operator: Operator::Equals,
            value: "true".to_string(),
            negate: false,
        }],
        LogicOp::And,
    );
    let msg = MailEnvelope {
        has_attachment: true,
        ..make_envelope()
    };
    let cache = RegexCache::default();
    assert!(evaluate_rule(&rule, &msg, &cache));
}

#[test]
fn header_condition() {
    let rule = make_rule(
        vec![Condition {
            field: ConditionField::Header("X-Priority".to_string()),
            operator: Operator::Equals,
            value: "high".to_string(),
            negate: false,
        }],
        LogicOp::And,
    );
    let msg = MailEnvelope {
        headers: vec![("x-priority".to_string(), "high".to_string())],
        ..make_envelope()
    };
    let cache = RegexCache::default();
    assert!(evaluate_rule(&rule, &msg, &cache));
}

#[test]
fn regex_cache_reuses_compiled_pattern() {
    let cache = RegexCache::default();
    let r1 = cache.get_or_compile(r"\d+");
    let r2 = cache.get_or_compile(r"\d+");
    // Both calls should succeed and return equivalent patterns.
    assert!(r1.is_some());
    assert!(r2.is_some());
    // Verify both patterns match the same input.
    assert!(r1.unwrap().is_match("123"));
    assert!(r2.unwrap().is_match("123"));
}

#[test]
fn rule_validation_rejects_invalid_regex() {
    let mut rule = make_rule(
        vec![Condition {
            field: ConditionField::Subject,
            operator: Operator::Regex,
            value: "[invalid".to_string(),
            negate: false,
        }],
        LogicOp::And,
    );
    assert!(matches!(
        rule.validate(),
        Err(FilterError::InvalidRegex { .. })
    ));
    rule.conditions[0].operator = Operator::Contains;
    rule.conditions[0].value = "ok".to_string();
    assert!(rule.validate().is_ok());
    rule.id = String::new();
    assert!(matches!(
        rule.validate(),
        Err(FilterError::EmptyRuleId)
    ));
    rule.id = "x".to_string();
    rule.name = String::new();
    assert!(matches!(
        rule.validate(),
        Err(FilterError::EmptyRuleName)
    ));
}

// ---- envelope test (RFC 5228 §5.1) ---------------------------------

fn envelope_condition(part: EnvelopePart, part_kind: AddressPart, value: &str) -> Condition {
    Condition {
        field: ConditionField::Envelope {
            part,
            address_part: part_kind,
        },
        operator: Operator::Equals,
        value: value.to_string(),
        negate: false,
    }
}

fn envelope_msg() -> MailEnvelope {
    MailEnvelope {
        from: "newsletter@lists.example.com".to_string(),
        envelope_from: Some("bounce@sender.example.net".to_string()),
        envelope_to: Some("you@corp.example".to_string()),
        ..MailEnvelope::default()
    }
}

#[test]
fn envelope_all_matches_full_address() {
    let msg = envelope_msg();
    let cache = RegexCache::default();
    for (part, value) in [
        (EnvelopePart::From, "bounce@sender.example.net"),
        (EnvelopePart::To, "you@corp.example"),
    ] {
        let cond = envelope_condition(part, AddressPart::All, value);
        assert!(evaluate_condition(&cond, &msg, &cache));
    }
}

#[test]
fn envelope_localpart_and_domain() {
    let msg = envelope_msg();
    let cache = RegexCache::default();
    let cond = envelope_condition(EnvelopePart::From, AddressPart::Localpart, "bounce");
    assert!(evaluate_condition(&cond, &msg, &cache));
    let cond = envelope_condition(
        EnvelopePart::From,
        AddressPart::Domain,
        "sender.example.net",
    );
    assert!(evaluate_condition(&cond, &msg, &cache));
    let cond = envelope_condition(EnvelopePart::From, AddressPart::Domain, "elsewhere");
    assert!(!evaluate_condition(&cond, &msg, &cache));
}

#[test]
fn envelope_matching_is_case_insensitive() {
    let msg = envelope_msg();
    let cache = RegexCache::default();
    let cond = envelope_condition(EnvelopePart::To, AddressPart::All, "YOU@CORP.EXAMPLE");
    assert!(evaluate_condition(&cond, &msg, &cache));
}

#[test]
fn envelope_without_at_domain_is_empty() {
    let msg = MailEnvelope {
        envelope_from: Some("bare-address".to_string()),
        ..MailEnvelope::default()
    };
    let cache = RegexCache::default();
    let localpart =
        envelope_condition(EnvelopePart::From, AddressPart::Localpart, "bare-address");
    assert!(evaluate_condition(&localpart, &msg, &cache));
    let domain = envelope_condition(EnvelopePart::From, AddressPart::Domain, "");
    assert!(evaluate_condition(&domain, &msg, &cache));
    let domain = envelope_condition(EnvelopePart::From, AddressPart::Domain, "example.com");
    assert!(!evaluate_condition(&domain, &msg, &cache));
}

#[test]
fn envelope_missing_data_never_matches() {
    let msg = MailEnvelope::default();
    let cache = RegexCache::default();
    let cond = envelope_condition(EnvelopePart::From, AddressPart::All, "anything");
    assert!(!evaluate_condition(&cond, &msg, &cache));
    // Negation inverts: `not envelope` matches when data is missing.
    let cond = Condition {
        negate: true,
        ..cond
    };
    assert!(evaluate_condition(&cond, &msg, &cache));
}

#[test]
fn envelope_supports_all_operators() {
    let msg = envelope_msg();
    let cache = RegexCache::default();
    let base_field = ConditionField::Envelope {
        part: EnvelopePart::To,
        address_part: AddressPart::Domain,
    };
    let contains = Condition {
        field: base_field.clone(),
        operator: Operator::Contains,
        value: "corp".to_string(),
        negate: false,
    };
    assert!(evaluate_condition(&contains, &msg, &cache));
    let glob = Condition {
        field: base_field.clone(),
        operator: Operator::Matches,
        value: "*.example".to_string(),
        negate: false,
    };
    assert!(evaluate_condition(&glob, &msg, &cache));
    let exists = Condition {
        field: base_field.clone(),
        operator: Operator::Exists,
        value: String::new(),
        negate: false,
    };
    assert!(evaluate_condition(&exists, &msg, &cache));
    let numeric = Condition {
        field: base_field,
        operator: Operator::NumericEquals,
        value: "7".to_string(),
        negate: false,
    };
    assert!(!evaluate_condition(&numeric, &msg, &cache));
}

#[test]
fn field_value_envelope_resolves_full_address() {
    let msg = envelope_msg();
    assert_eq!(
        field_value(
            &msg,
            &ConditionField::Envelope {
                part: EnvelopePart::From,
                address_part: AddressPart::All,
            }
        ),
        "bounce@sender.example.net"
    );
}

// ---- i;ascii-numeric comparator ------------------------------------

#[test]
fn ascii_numeric_equality() {
    assert!(ascii_numeric_eq("42", "42"));
    assert!(ascii_numeric_eq("007", "7"));
    assert!(ascii_numeric_eq("", ""));
    assert!(!ascii_numeric_eq("42", "0421"));
    assert!(!ascii_numeric_eq("", "0"));
    assert!(!ascii_numeric_eq("12a", "12"));
    assert!(!ascii_numeric_eq("12", "1 2"));
    assert!(!ascii_numeric_eq("-1", "1"));
}

#[test]
fn numeric_equals_operator_on_header() {
    let rule = make_rule(
        vec![Condition {
            field: ConditionField::Header("X-Spam-Score".to_string()),
            operator: Operator::NumericEquals,
            value: "10".to_string(),
            negate: false,
        }],
        LogicOp::And,
    );
    let msg = MailEnvelope {
        headers: vec![("X-Spam-Score".to_string(), "010".to_string())],
        ..MailEnvelope::default()
    };
    assert!(evaluate_rule(&rule, &msg, &RegexCache::default()));
}

// ---- evaluate_plan: vacation, notify, warnings ----------------------


/// A rule that always matches [`eval_envelope`] (subject "Hello").
fn matching_rule(actions: Vec<Action>) -> FilterRule {
    FilterRule {
        actions,
        ..make_rule(
            vec![Condition {
                field: ConditionField::Subject,
                operator: Operator::Contains,
                value: "hello".to_string(),
                negate: false,
            }],
            LogicOp::And,
        )
    }
}

fn eval_envelope() -> MailEnvelope {
    MailEnvelope {
        from: "alice@example.com".to_string(),
        envelope_from: Some("alice@bounce.example.com".to_string()),
        to: "you@example.com".to_string(),
        subject: "Hello".to_string(),
        ..MailEnvelope::default()
    }
}

#[test]
fn evaluate_plan_resolves_vacation_reply() {
    let rule = matching_rule(vec![Action::Vacation(
        Vacation::new("I am away until Monday.")
            .with_subject("Away")
            .with_days(3),
    )]);
    let msg = eval_envelope();
    let outcome = evaluate_plan(
        &[rule],
        &msg,
        &EvalContext::default(),
        &RegexCache::default(),
    );
    assert_eq!(outcome.plan.len(), 1);
    assert!(outcome.warnings.is_empty());
    let PlannedAction::Vacation(reply) = &outcome.plan[0] else {
        panic!("expected vacation outcome");
    };
    assert_eq!(
        reply,
        &VacationReply {
            to: "alice@bounce.example.com".to_string(),
            days: 3,
            subject: "Away".to_string(),
            from: None,
            message: "I am away until Monday.".to_string(),
        }
    );
}

#[test]
fn vacation_subject_defaults_to_re_original() {
    let rule = FilterRule {
        actions: vec![Action::Vacation(Vacation::new("away"))],
        ..matching_rule(vec![])
    };
    let outcome = evaluate_plan(
        &[rule],
        &eval_envelope(),
        &EvalContext::default(),
        &RegexCache::default(),
    );
    let PlannedAction::Vacation(reply) = &outcome.plan[0] else {
        panic!("expected vacation outcome");
    };
    assert_eq!(reply.subject, "Re: Hello");
    assert_eq!(reply.days, 7);
}

#[test]
fn vacation_prefers_envelope_sender_over_header_from() {
    let rule = FilterRule {
        actions: vec![Action::Vacation(Vacation::new("away"))],
        ..matching_rule(vec![])
    };
    let msg = MailEnvelope {
        from: "header-from@example.com".to_string(),
        envelope_from: Some("envelope-from@example.net".to_string()),
        ..eval_envelope()
    };
    let outcome = evaluate_plan(
        &[rule],
        &msg,
        &EvalContext::default(),
        &RegexCache::default(),
    );
    let PlannedAction::Vacation(reply) = &outcome.plan[0] else {
        panic!("expected vacation outcome");
    };
    assert_eq!(reply.to, "envelope-from@example.net");
}

#[test]
fn vacation_seen_before_hook_suppresses_reply() {
    let rule = FilterRule {
        actions: vec![Action::Vacation(Vacation::new("away"))],
        ..matching_rule(vec![])
    };
    let msg = eval_envelope();
    let seen = |sender: &str| sender == "alice@bounce.example.com";
    let ctx = EvalContext::default().with_seen_before(&seen);
    let outcome = evaluate_plan(&[rule], &msg, &ctx, &RegexCache::default());
    assert!(outcome.plan.is_empty());
    assert!(outcome.warnings.is_empty());
}

#[test]
fn vacation_tracker_dedups_across_evaluations() {
    let rule = FilterRule {
        actions: vec![Action::Vacation(Vacation::new("away"))],
        ..matching_rule(vec![])
    };
    let tracker = VacationTracker::new();
    let seen = |sender: &str| tracker.seen_before(sender, 7);
    let ctx = EvalContext::default().with_seen_before(&seen);

    let first = evaluate_plan(
        std::slice::from_ref(&rule),
        &eval_envelope(),
        &ctx,
        &RegexCache::default(),
    );
    assert_eq!(first.plan.len(), 1);
    if let PlannedAction::Vacation(reply) = &first.plan[0] {
        tracker.record(&reply.to);
    }

    let second = evaluate_plan(
        std::slice::from_ref(&rule),
        &eval_envelope(),
        &ctx,
        &RegexCache::default(),
    );
    assert!(second.plan.is_empty());
}

#[test]
fn vacation_without_sender_warns_and_is_omitted() {
    let rule = FilterRule {
        actions: vec![Action::Vacation(Vacation::new("away"))],
        ..matching_rule(vec![])
    };
    // Matches on subject but supplies neither envelope sender nor a
    // header From address to reply to.
    let msg = MailEnvelope {
        subject: "Hello".to_string(),
        ..MailEnvelope::default()
    };
    let outcome = evaluate_plan(
        &[rule],
        &msg,
        &EvalContext::default(),
        &RegexCache::default(),
    );
    assert!(outcome.plan.is_empty());
    assert_eq!(outcome.warnings, vec![EvalWarning::VacationNoSender]);
}

#[test]
fn notify_plans_method_and_message() {
    let rule = FilterRule {
        actions: vec![Action::Notify(Notify::new(
            "mailto:ops@example.com",
            "Payment received",
        ))],
        ..matching_rule(vec![])
    };
    let outcome = evaluate_plan(
        &[rule],
        &eval_envelope(),
        &EvalContext::default(),
        &RegexCache::default(),
    );
    assert!(outcome.warnings.is_empty());
    assert_eq!(
        outcome.plan,
        vec![PlannedAction::Notify {
            method: "mailto:ops@example.com".to_string(),
            message: "Payment received".to_string(),
        }]
    );
}

#[test]
fn unknown_notify_method_parses_but_warns() {
    let rule = FilterRule {
        actions: vec![
            Action::Notify(Notify::new("carrier-pigeon:perth", "hello")),
            Action::MarkRead,
        ],
        ..matching_rule(vec![])
    };
    let outcome = evaluate_plan(
        &[rule],
        &eval_envelope(),
        &EvalContext::default(),
        &RegexCache::default(),
    );
    // The notification outcome is still produced...
    assert_eq!(outcome.plan.len(), 2);
    // ...alongside a warning about the unrecognized scheme.
    assert_eq!(
        outcome.warnings,
        vec![EvalWarning::UnknownNotifyMethod {
            method: "carrier-pigeon:perth".to_string(),
        }]
    );
}

#[test]
fn notify_method_without_scheme_warns() {
    let rule = FilterRule {
        actions: vec![Action::Notify(Notify::new("no-scheme-here", ""))],
        ..matching_rule(vec![])
    };
    let outcome = evaluate_plan(
        &[rule],
        &eval_envelope(),
        &EvalContext::default(),
        &RegexCache::default(),
    );
    assert_eq!(outcome.plan.len(), 1);
    assert_eq!(
        outcome.warnings,
        vec![EvalWarning::UnknownNotifyMethod {
            method: "no-scheme-here".to_string(),
        }]
    );
}

#[test]
fn no_matching_rule_yields_empty_outcome() {
    let rule = FilterRule {
        actions: vec![Action::MarkRead],
        ..make_rule(
            vec![Condition {
                field: ConditionField::Subject,
                operator: Operator::Contains,
                value: "never".to_string(),
                negate: false,
            }],
            LogicOp::And,
        )
    };
    let outcome = evaluate_plan(
        &[rule],
        &eval_envelope(),
        &EvalContext::default(),
        &RegexCache::default(),
    );
    assert!(outcome.is_empty());
    assert_eq!(outcome.rule_id, None);
}

