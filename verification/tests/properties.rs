//! Properties of condition evaluation, checked on fixed samples.

use sieve_kit::eval::{
    evaluate_condition, evaluate_rule, field_value, glob_match, sort_rules_by_priority, RegexCache,
};
use sieve_kit::types::{Condition, ConditionField, FilterRule, LogicOp, MailEnvelope, Operator};

fn envelope(subject: String) -> MailEnvelope {
    MailEnvelope {
        from: "alice@example.com".to_string(),
        to: "bob@example.com".to_string(),
        cc: "carol@example.com".to_string(),
        subject,
        body: "this is a test body".to_string(),
        has_attachment: false,
        headers: vec![("X-Priority".to_string(), "high".to_string())],
        ..MailEnvelope::default()
    }
}

fn contains_condition(field: ConditionField, value: String, negate: bool) -> Condition {
    Condition {
        field,
        operator: Operator::Contains,
        value,
        negate,
    }
}

/// Deterministic operators over every field, with a few operands.
fn simple_conditions() -> Vec<Condition> {
    let fields = [
        ConditionField::From,
        ConditionField::To,
        ConditionField::Cc,
        ConditionField::Subject,
        ConditionField::Body,
        ConditionField::Header("X-Priority".to_string()),
        ConditionField::Header("X-Missing".to_string()),
    ];
    let operators = [
        Operator::Contains,
        Operator::Equals,
        Operator::Matches,
        Operator::Exists,
    ];
    let values = ["", "hello", "HIGH", "Alice", "zz", "hello world"];
    let mut out = Vec::new();
    for field in &fields {
        for operator in &operators {
            for value in values {
                for negate in [false, true] {
                    out.push(Condition {
                        field: field.clone(),
                        operator: operator.clone(),
                        value: value.to_string(),
                        negate,
                    });
                }
            }
        }
    }
    out
}

#[test]
fn contains_iff_case_insensitive_substring() {
    let needles = ["", "hello", "HeLLo", "world", "xyz", "O W"];
    let haystacks = ["", "Hello World", "HELLO there", "abc 123", "o w"];
    for needle in needles {
        for haystack in haystacks {
            let env = envelope(haystack.to_string());
            let cond = contains_condition(ConditionField::Subject, needle.to_string(), false);
            let expected = haystack.to_lowercase().contains(&needle.to_lowercase());
            assert_eq!(
                evaluate_condition(&cond, &env, &RegexCache::default()),
                expected
            );
        }
    }
}

#[test]
fn equals_ignores_ascii_case() {
    let samples = ["", "abc", "ABC", "aBc9", "abd", "ab"];
    for a in samples {
        for b in samples {
            let env = envelope(a.to_string());
            let cond = Condition {
                field: ConditionField::Subject,
                operator: Operator::Equals,
                value: b.to_string(),
                negate: false,
            };
            assert_eq!(
                evaluate_condition(&cond, &env, &RegexCache::default()),
                a.eq_ignore_ascii_case(b)
            );
        }
    }
}

#[test]
fn negation_inverts_result() {
    let env = envelope("Hello World".to_string());
    let cache = RegexCache::default();
    for cond in simple_conditions() {
        let plain_cond = Condition {
            negate: false,
            ..cond
        };
        let plain = evaluate_condition(&plain_cond, &env, &cache);
        let negated = Condition {
            negate: true,
            ..plain_cond
        };
        assert_eq!(evaluate_condition(&negated, &env, &cache), !plain);
    }
}

#[test]
fn rule_logic_matches_condition_combination() {
    let env = envelope("Hello World".to_string());
    let cache = RegexCache::default();
    let all = simple_conditions();
    for start in (0..all.len()).step_by(5) {
        for len in 1..8 {
            let conds: Vec<Condition> = all.iter().cycle().skip(start).take(len).cloned().collect();
            for logic in [LogicOp::And, LogicOp::Or] {
                let results: Vec<bool> = conds
                    .iter()
                    .map(|c| evaluate_condition(c, &env, &cache))
                    .collect();
                let rule = FilterRule {
                    id: "prop".to_string(),
                    name: "prop".to_string(),
                    enabled: true,
                    priority: 0,
                    conditions: conds.clone(),
                    condition_logic: logic,
                    actions: vec![],
                };
                let expected = match logic {
                    LogicOp::And => results.iter().all(|&r| r),
                    LogicOp::Or => results.iter().any(|&r| r),
                };
                assert_eq!(evaluate_rule(&rule, &env, &cache), expected);
            }
        }
    }
}

#[test]
fn disabled_or_empty_rules_never_match() {
    let env = envelope("Hello World".to_string());
    let cache = RegexCache::default();
    let all = simple_conditions();
    for len in 0..5 {
        let conds: Vec<Condition> = all.iter().take(len).cloned().collect();
        for logic in [LogicOp::And, LogicOp::Or] {
            for enabled in [false, true] {
                let rule = FilterRule {
                    id: "prop".to_string(),
                    name: "prop".to_string(),
                    enabled,
                    priority: 0,
                    conditions: conds.clone(),
                    condition_logic: logic,
                    actions: vec![],
                };
                if !enabled || rule.conditions.is_empty() {
                    assert!(!evaluate_rule(&rule, &env, &cache));
                }
            }
        }
    }
}

#[test]
fn star_glob_matches_anything() {
    for input in ["", "a", "anything at all", "ÄÖÜ ß", "*?\\", "line\nbreak"] {
        assert!(glob_match("*", input));
    }
}

#[test]
fn literal_glob_is_case_insensitive_equality() {
    let samples = ["", "abc", "ABC", "a b c", "Hello 42", "hello 42", "hello 4"];
    for pattern in samples {
        for input in samples {
            assert_eq!(glob_match(pattern, input), pattern.eq_ignore_ascii_case(input));
        }
    }
}

#[test]
fn question_mark_matches_exactly_one_char() {
    for one in ["a", "q", "z"] {
        assert!(glob_match("?", one));
    }
    assert!(!glob_match("?", ""));
    for two in ["ab", "zz"] {
        assert!(!glob_match("?", two));
    }
}

#[test]
fn exists_iff_non_empty() {
    for subject in ["", "a", "Hello World", " "] {
        let env = envelope(subject.to_string());
        let cond = Condition {
            field: ConditionField::Subject,
            operator: Operator::Exists,
            value: String::new(),
            negate: false,
        };
        assert_eq!(
            evaluate_condition(&cond, &env, &RegexCache::default()),
            !subject.is_empty()
        );
    }
}

#[test]
fn sort_by_priority_is_stable_ordering() {
    let samples: Vec<Vec<i32>> = vec![
        vec![],
        vec![5],
        vec![3, 1, 2],
        vec![i32::MAX, i32::MIN, 0, -1, 1],
        vec![2, 2, 1, 1, 0, 0, 3],
        (0..50).map(|k| (k * 37 % 11) - 5).collect(),
    ];
    for priorities in samples {
        let mut rules: Vec<FilterRule> = priorities
            .iter()
            .enumerate()
            .map(|(k, &p)| FilterRule {
                id: format!("r{k}"),
                name: "prop".to_string(),
                enabled: true,
                priority: p,
                conditions: vec![],
                condition_logic: LogicOp::And,
                actions: vec![],
            })
            .collect();
        let mut expected: Vec<i32> = priorities.clone();
        expected.sort_unstable();
        sort_rules_by_priority(&mut rules);
        let got: Vec<i32> = rules.iter().map(|r| r.priority).collect();
        assert_eq!(got, expected);
        // Stable: equal priorities keep their original (id) order.
        for w in rules.windows(2) {
            if w[0].priority == w[1].priority {
                let a: usize = w[0].id[1..].parse().unwrap();
                let b: usize = w[1].id[1..].parse().unwrap();
                assert!(a < b);
            }
        }
    }
}

/// `field_value` resolves `HasAttachment` to the literal strings the
/// `Equals` operator compares against.
#[test]
fn has_attachment_field_resolves_to_true_false() {
    let mut env = envelope("s".to_string());
    env.has_attachment = true;
    assert_eq!(field_value(&env, &ConditionField::HasAttachment), "true");
    env.has_attachment = false;
    assert_eq!(field_value(&env, &ConditionField::HasAttachment), "false");
}

/// Missing headers resolve to the empty string.
#[test]
fn missing_header_resolves_to_empty() {
    let env = envelope("s".to_string());
    assert_eq!(
        field_value(&env, &ConditionField::Header("X-Missing".to_string())),
        ""
    );
}
