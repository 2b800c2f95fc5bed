use sieve_kit::actions::{
    apply_flag_plan, build_action_plan, collect_matches, FilterMatch, PlannedAction,
    VacationReply, VacationTracker,
};
use sieve_kit::eval::RegexCache;
use sieve_kit::types::{
    Action, Condition, ConditionField, FilterRule, Flag, LogicOp, MailEnvelope, Notify, Operator,
    Vacation,
};

fn test_rule(actions: Vec<Action>) -> FilterRule {
    FilterRule {
        id: "test".to_string(),
        name: "Test".to_string(),
        enabled: true,
        priority: 0,
        conditions: vec![Condition {
            field: ConditionField::Subject,
            operator: Operator::Contains,
            value: "hello".to_string(),
            negate: false,
        }],
        condition_logic: LogicOp::And,
        actions,
    }
}

fn make_envelope() -> MailEnvelope {
    MailEnvelope {
        subject: "Hello World".to_string(),
        ..MailEnvelope::default()
    }
}

#[test]
fn collect_matches_returns_first_rule_actions() {
    let rules = vec![
        test_rule(vec![Action::MarkRead]),
        test_rule(vec![Action::Delete]),
    ];
    let msg = make_envelope();
    let cache = RegexCache::default();
    let matches = collect_matches(&rules, &msg, &cache);
    assert_eq!(matches.len(), 1);
    assert_eq!(matches[0], Action::MarkRead);
}

#[test]
fn collect_matches_returns_empty_when_no_match() {
    let rules = vec![test_rule(vec![Action::MarkRead])];
    let msg = MailEnvelope {
        subject: "no match here".to_string(),
        ..MailEnvelope::default()
    };
    let cache = RegexCache::default();
    let matches = collect_matches(&rules, &msg, &cache);
    assert!(matches.is_empty());
}

#[test]
fn build_action_plan_translates_all_variants() {
    let actions = vec![
        Action::MoveTo("Archive".to_string()),
        Action::CopyTo("Keep".to_string()),
        Action::Flag(vec![Flag::Flagged]),
        Action::MarkRead,
        Action::Delete,
        Action::Forward("a@b.com".to_string()),
    ];
    let plan = build_action_plan(&actions);
    assert_eq!(plan.len(), 6);
    assert_eq!(
        plan[0],
        PlannedAction::Move {
            to: "Archive".to_string()
        }
    );
    assert_eq!(
        plan[1],
        PlannedAction::Copy {
            to: "Keep".to_string()
        }
    );
    assert_eq!(
        plan[2],
        PlannedAction::AddFlags {
            flags: vec![Flag::Flagged]
        }
    );
    assert_eq!(plan[3], PlannedAction::MarkRead);
    assert_eq!(plan[4], PlannedAction::Delete);
    assert_eq!(
        plan[5],
        PlannedAction::Forward {
            to: "a@b.com".to_string()
        }
    );
}

#[test]
fn filter_match_new_accepts_any_id() {
    let m = FilterMatch::new("msg-42", vec![Action::MarkRead]);
    assert_eq!(m.message_id, "msg-42");
    assert_eq!(m.actions, vec![Action::MarkRead]);
}

#[test]
fn build_action_plan_translates_flag_mutation_variants() {
    let actions = vec![
        Action::Flag(vec![Flag::Flagged]),
        Action::Unflag(vec![Flag::Seen]),
        Action::SetFlags(vec![Flag::Answered]),
    ];
    let plan = build_action_plan(&actions);
    assert_eq!(
        plan,
        vec![
            PlannedAction::AddFlags {
                flags: vec![Flag::Flagged]
            },
            PlannedAction::RemoveFlags {
                flags: vec![Flag::Seen]
            },
            PlannedAction::SetFlags {
                flags: vec![Flag::Answered]
            },
        ]
    );
}

#[test]
fn build_action_plan_translates_vacation_and_notify() {
    let plan = build_action_plan(&[
        Action::Vacation(
            Vacation::new("away")
                .with_days(2)
                .with_from("me@example.com"),
        ),
        Action::Notify(Notify::new("mailto:x@y", "ping")),
    ]);
    assert_eq!(
        plan,
        vec![
            PlannedAction::Vacation(VacationReply {
                // Pure translation leaves the recipient unfilled;
                // `evaluate_plan` resolves it from envelope data.
                to: String::new(),
                days: 2,
                subject: String::new(),
                from: Some("me@example.com".to_string()),
                message: "away".to_string(),
            }),
            PlannedAction::Notify {
                method: "mailto:x@y".to_string(),
                message: "ping".to_string(),
            },
        ]
    );
}

#[test]
fn apply_flag_plan_adds_without_duplicates() {
    let current = vec![Flag::Seen];
    let plan = build_action_plan(&[Action::Flag(vec![Flag::Seen, Flag::Flagged])]);
    let flags = apply_flag_plan(&current, &plan);
    assert_eq!(flags, vec![Flag::Seen, Flag::Flagged]);
}

#[test]
fn apply_flag_plan_removes_listed_flags_only() {
    let current = vec![Flag::Seen, Flag::Flagged, Flag::Keyword("work".into())];
    let plan = build_action_plan(&[Action::Unflag(vec![
        Flag::Seen,
        Flag::Keyword("nope".into()),
    ])]);
    let flags = apply_flag_plan(&current, &plan);
    assert_eq!(flags, vec![Flag::Flagged, Flag::Keyword("work".into())]);
}

#[test]
fn apply_flag_plan_set_replaces_whole_set() {
    let current = vec![Flag::Seen, Flag::Flagged];
    let plan = build_action_plan(&[Action::SetFlags(vec![Flag::Draft])]);
    let flags = apply_flag_plan(&current, &plan);
    assert_eq!(flags, vec![Flag::Draft]);
}

#[test]
fn apply_flag_plan_folds_in_order() {
    let current = vec![];
    let plan = build_action_plan(&[
        Action::Flag(vec![Flag::Flagged]),
        Action::Flag(vec![Flag::Seen]),
        Action::Unflag(vec![Flag::Flagged]),
        Action::SetFlags(vec![Flag::Answered, Flag::Draft]),
    ]);
    let flags = apply_flag_plan(&current, &plan);
    assert_eq!(flags, vec![Flag::Answered, Flag::Draft]);
}

#[test]
fn apply_flag_plan_ignores_non_flag_actions() {
    let current = vec![Flag::Seen];
    let plan = build_action_plan(&[Action::MoveTo("Archive".into()), Action::MarkRead]);
    let flags = apply_flag_plan(&current, &plan);
    assert_eq!(flags, vec![Flag::Seen]);
}

#[test]
fn vacation_tracker_responds_once_within_period() {
    let tracker = VacationTracker::new();
    assert!(!tracker.seen_before("a@b.c", 7));
    tracker.record("a@b.c");
    assert!(tracker.seen_before("a@b.c", 7));
    assert!(!tracker.seen_before("other@b.c", 7));
    // Period boundary: 7 days exactly is due again, 6 days is not.
    let now = std::time::Instant::now();
    tracker.record_at("old@b.c", now - std::time::Duration::from_secs(7 * 86_400));
    assert!(!tracker.seen_before("old@b.c", 7));
    tracker.record_at(
        "recent@b.c",
        now - std::time::Duration::from_secs(6 * 86_400),
    );
    assert!(tracker.seen_before("recent@b.c", 7));
}
