//! Rule evaluation engine. Synchronous and bounded.
//!
//! Regex evaluation is checked against a 100 ms budget after matching.
//! Invalid regex patterns are treated as non-matching (never panic).
use vstd::prelude::*;

use crate::clock::{duration_as_millis, instant_elapsed, instant_now};
use crate::glob::glob_spec;
use crate::numeric::ascii_numeric_eq_spec;
use crate::pattern::{regex_compiles, regex_is_match};
use crate::text::{
    ascii_lower, ascii_lower_seq, chars_of, contains_chars, contains_seq, eq_ignore_ascii_case, eq_ignore_ascii_case_spec,
    last_index_of, lemma_last_index_of, rfind_char, to_lowercase, unicode_lowercase,
};
use crate::actions::{plan_view, planned_view, PlannedAction, PlannedActionView, VacationReply, VacationReplyView};
use crate::types::{
    actions_view, copy_opt_string, lookup_header, str_headers_view, string_headers_view, is_known_method, opt_str_view, opt_string_view, Action, ActionView,
    AddressPart, Condition, ConditionField, EnvelopePart, FieldValues, FilterRule, Filterable,
    LogicOp, MailEnvelope, Operator, Vacation, VacationView,
};

pub use crate::glob::glob_match;
pub use crate::numeric::ascii_numeric_eq;
pub use crate::pattern::RegexCache;

verus! {

/// Maximum time allowed for a single regex match (milliseconds).
pub const REGEX_TIMEOUT_MS: u128 = 100;

/// `r` is an answer the message's `envelope_from` (for `From`) or
/// `envelope_to` (for `To`) may give, by the message type's own contract.
pub open spec fn envelope_call<F: Filterable>(msg: &F, part: EnvelopePart, r: Option<&str>) -> bool {
    match part {
        EnvelopePart::From => call_ensures(F::envelope_from, (msg,), r),
        EnvelopePart::To => call_ensures(F::envelope_to, (msg,), r),
    }
}

/// `o` is the envelope value (if any) the message may report for `part`.
pub open spec fn envelope_answers<F: Filterable>(msg: &F, part: EnvelopePart, o: Option<Seq<char>>) -> bool {
    exists|r: Option<&str>| #[trigger] envelope_call(msg, part, r) && opt_str_view(r) == o
}

/// `r` is an answer the message's `header` may give when asked for `s`, by
/// the message type's own contract.
pub open spec fn header_call<F: Filterable>(msg: &F, s: &str, r: Option<&str>) -> bool {
    call_ensures(F::header, (msg, s), r)
}

/// `o` is the header value (if any) the message may report for a header
/// name with the characters `name`.
pub open spec fn header_answers<F: Filterable>(msg: &F, name: Seq<char>, o: Option<Seq<char>>) -> bool {
    exists|s: &str, r: Option<&str>| s@ == name && #[trigger] header_call(msg, s, r) && opt_str_view(r) == o
}

/// `ans` is what the message may answer for the lookup a field needs: the
/// header for `Header`, the envelope value for `Envelope`; the other fields
/// need no lookup (their answer is `None`).
pub open spec fn lookup_answer<F: Filterable>(msg: &F, field: ConditionField, ans: Option<Seq<char>>) -> bool {
    match field {
        ConditionField::Header(name) => header_answers(msg, name@, ans),
        ConditionField::Envelope { part, .. } => envelope_answers(msg, part, ans),
        _ => ans is None,
    }
}

/// The message answers the field's lookup in one way only (true of
/// `MailEnvelope` and `FieldValues`: `law_mail_envelope_determined`,
/// `law_field_values_determined`).
pub open spec fn lookup_determined<F: Filterable>(msg: &F, field: ConditionField) -> bool {
    forall|a1: Option<Seq<char>>, a2: Option<Seq<char>>|
        #[trigger] lookup_answer(msg, field, a1) && #[trigger] lookup_answer(msg, field, a2) ==> a1 == a2
}

/// The message has some answer for the field's lookup.
pub open spec fn lookup_answered<F: Filterable>(msg: &F, field: ConditionField) -> bool {
    exists|a: Option<Seq<char>>| #[trigger] lookup_answer(msg, field, a)
}

/// The string a condition field resolves to on a message, given the answer
/// `ans` to its lookup: missing fields and headers resolve to the empty
/// string, `HasAttachment` to `"true"` or `"false"`, and an envelope field
/// to the full envelope address.
pub open spec fn field_value_with<F: Filterable>(msg: &F, field: ConditionField, ans: Option<Seq<char>>) -> Seq<char> {
    match field {
        ConditionField::From => msg.from_view(),
        ConditionField::To => msg.to_view(),
        ConditionField::Cc => msg.cc_view(),
        ConditionField::Subject => msg.subject_view(),
        ConditionField::Body => msg.body_view(),
        ConditionField::HasAttachment => if msg.has_attachment_view() {
            "true"@
        } else {
            "false"@
        },
        _ => match ans {
            Some(v) => v,
            None => Seq::empty(),
        },
    }
}

/// Resolve the string value of a condition field on a message.
///
/// `HasAttachment` resolves to `"true"`/`"false"`; missing fields resolve to
/// the empty string. For `ConditionField::Envelope` this is the full envelope
/// address (`:all` semantics).
pub fn field_value<'a, F: Filterable>(msg: &'a F, field: &ConditionField) -> (r: &'a str)
    ensures
        exists|ans: Option<Seq<char>>| #[trigger] lookup_answer(msg, *field, ans) && r@ == field_value_with(msg, *field, ans),
        *field is From ==> r@ == msg.from_view(),
        *field is To ==> r@ == msg.to_view(),
        *field is Cc ==> r@ == msg.cc_view(),
        *field is Subject ==> r@ == msg.subject_view(),
        *field is Body ==> r@ == msg.body_view(),
        *field is HasAttachment ==> (r@ == "true"@) == msg.has_attachment_view(),
{
    proof {
        reveal_strlit("");
        reveal_strlit("true");
        reveal_strlit("false");
        assert("true"@.len() != "false"@.len());
    }
    match field {
        ConditionField::From => {
            let v = msg.from();
            assert(lookup_answer(msg, *field, None));
            v
        },
        ConditionField::To => {
            let v = msg.to();
            assert(lookup_answer(msg, *field, None));
            v
        },
        ConditionField::Cc => {
            let v = msg.cc();
            assert(lookup_answer(msg, *field, None));
            v
        },
        ConditionField::Subject => {
            let v = msg.subject();
            assert(lookup_answer(msg, *field, None));
            v
        },
        ConditionField::Body => {
            let v = msg.body();
            assert(lookup_answer(msg, *field, None));
            v
        },
        ConditionField::Header(name) => {
            let s = name.as_str();
            let raw = msg.header(s);
            assert(header_call(msg, s, raw));
            assert(lookup_answer(msg, *field, opt_str_view(raw)));
            match raw {
                Some(v) => v,
                None => "",
            }
        },
        ConditionField::HasAttachment => {
            assert(lookup_answer(msg, *field, None));
            if msg.has_attachment() {
                "true"
            } else {
                "false"
            }
        },
        ConditionField::Envelope { part, .. } => {
            let raw = match part {
                EnvelopePart::From => msg.envelope_from(),
                EnvelopePart::To => msg.envelope_to(),
            };
            assert(envelope_call(msg, *part, raw));
            assert(lookup_answer(msg, *field, opt_str_view(raw)));
            match raw {
                Some(v) => v,
                None => "",
            }
        },
    }
}

/// Each field resolves to its own part of the message, whatever the lookup
/// answer: `From`, `To`, `Cc`, `Subject` and `Body` to the message's From,
/// To, Cc, Subject and Body; `HasAttachment` to `"true"` exactly when the
/// message has an attachment (else `"false"`); a header or envelope field to
/// the answer, or to the empty string without one.
pub proof fn law_fields_resolve_to_their_own_value<F: Filterable>(msg: &F, ans: Option<Seq<char>>)
    ensures
        field_value_with(msg, ConditionField::From, ans) == msg.from_view(),
        field_value_with(msg, ConditionField::To, ans) == msg.to_view(),
        field_value_with(msg, ConditionField::Cc, ans) == msg.cc_view(),
        field_value_with(msg, ConditionField::Subject, ans) == msg.subject_view(),
        field_value_with(msg, ConditionField::Body, ans) == msg.body_view(),
        (field_value_with(msg, ConditionField::HasAttachment, ans) == "true"@) == msg.has_attachment_view(),
        msg.has_attachment_view() || field_value_with(msg, ConditionField::HasAttachment, ans) == "false"@,
        forall|name: String| #[trigger] field_value_with(msg, ConditionField::Header(name), ans)
            == (match ans { Some(v) => v, None => Seq::<char>::empty() }),
{
    reveal_strlit("true");
    reveal_strlit("false");
    assert("true"@.len() != "false"@.len());
}

/// A test on one of the message's own fields tests that field: without a
/// regex operator, a `From`, `To`, `Cc`, `Subject` or `Body` condition can
/// give `b` exactly when `b` is the operator applied to the message's From,
/// To, Cc, Subject or Body and the operand, flipped when negated.
pub proof fn law_plain_field_conditions<F: Filterable>(c: Condition, msg: &F, b: bool)
    requires
        !(c.operator is Regex),
    ensures
        c.field is From ==> (condition_admits(c, msg, b) <==> b == (c.negate != operator_holds(c.operator, msg.from_view(), c.value@))),
        c.field is To ==> (condition_admits(c, msg, b) <==> b == (c.negate != operator_holds(c.operator, msg.to_view(), c.value@))),
        c.field is Cc ==> (condition_admits(c, msg, b) <==> b == (c.negate != operator_holds(c.operator, msg.cc_view(), c.value@))),
        c.field is Subject ==> (condition_admits(c, msg, b) <==> b == (c.negate != operator_holds(c.operator, msg.subject_view(), c.value@))),
        c.field is Body ==> (condition_admits(c, msg, b) <==> b == (c.negate != operator_holds(c.operator, msg.body_view(), c.value@))),
{
    assert(lookup_answer(msg, c.field, None::<Seq<char>>) <== (c.field is From || c.field is To || c.field is Cc || c.field is Subject || c.field is Body));
    law_fields_resolve_to_their_own_value(msg, None);
}

/// What the simple operators decide: `Exists` holds exactly when the field
/// value is non-empty, whatever the operand; `Equals` holds exactly when the
/// value and operand agree after ASCII lowercasing (so it is symmetric);
/// `Contains` looks at the value only through its lowercase form.
pub proof fn law_simple_operators(value: Seq<char>, other: Seq<char>, operand: Seq<char>)
    ensures
        operator_holds(Operator::Exists, value, operand) == (value.len() > 0),
        operator_holds(Operator::Equals, value, operand) == (ascii_lower_seq(value) == ascii_lower_seq(operand)),
        operator_holds(Operator::Equals, value, operand) == operator_holds(Operator::Equals, operand, value),
        unicode_lowercase(value) == unicode_lowercase(other) ==> operator_holds(Operator::Contains, value, operand)
            == operator_holds(Operator::Contains, other, operand),
{
    if eq_ignore_ascii_case_spec(value, operand) {
        assert(ascii_lower_seq(value) =~= ascii_lower_seq(operand));
    }
    if ascii_lower_seq(value) == ascii_lower_seq(operand) {
        assert(ascii_lower_seq(value).len() == value.len());
        assert forall|i: int| 0 <= i < value.len() implies ascii_lower(#[trigger] value[i]) == ascii_lower(operand[i]) by {
            assert(ascii_lower_seq(value)[i] == ascii_lower_seq(operand)[i]);
        }
    }
}

/// The portion of an address selected by an [`AddressPart`]: `:localpart`
/// is everything before the last `@` (the whole value when there is no `@`);
/// `:domain` is everything after the last `@` (empty when there is no `@`).
pub open spec fn address_part_spec(address: Seq<char>, part: AddressPart) -> Seq<char> {
    let at = last_index_of(address, '@');
    match part {
        AddressPart::All => address,
        AddressPart::Localpart => if at < 0 {
            address
        } else {
            address.subrange(0, at)
        },
        AddressPart::Domain => if at < 0 {
            Seq::empty()
        } else {
            address.subrange(at + 1, address.len() as int)
        },
    }
}

/// Extract the portion of an address selected by an [`AddressPart`].
pub fn extract_address_part(address: &str, part: AddressPart) -> (r: &str)
    ensures
        r@ == address_part_spec(address@, part),
{
    proof { reveal_strlit(""); }
    match part {
        AddressPart::All => address,
        AddressPart::Localpart => {
            let chars = chars_of(address);
            proof { lemma_last_index_of(chars@, '@'); }
            match rfind_char(&chars, '@') {
                Some(at) => address.substring_char(0, at),
                None => address,
            }
        },
        AddressPart::Domain => {
            let chars = chars_of(address);
            proof { lemma_last_index_of(chars@, '@'); }
            match rfind_char(&chars, '@') {
                Some(at) => {
                    assert(at < chars.len());
                    address.substring_char(at + 1, chars.len())
                },
                None => "",
            }
        },
    }
}

/// What an operator decides for a field value and the condition's operand,
/// with regex matching taken as if it always finished within its budget.
pub open spec fn operator_holds(op: Operator, value: Seq<char>, operand: Seq<char>) -> bool {
    match op {
        Operator::Contains => contains_seq(unicode_lowercase(value), unicode_lowercase(operand)),
        Operator::Equals => eq_ignore_ascii_case_spec(value, operand),
        Operator::Matches => glob_spec(operand, value),
        Operator::Regex => regex_compiles(operand) && regex_is_match(operand, value),
        Operator::Exists => value.len() > 0,
        Operator::NumericEquals => ascii_numeric_eq_spec(operand, value),
    }
}

/// `raw` is a possible answer of an operator: the decided value, except that
/// a regex match that runs over its time budget answers `false`.
pub open spec fn operator_admits(op: Operator, value: Seq<char>, operand: Seq<char>, raw: bool) -> bool {
    if op is Regex {
        raw ==> operator_holds(op, value, operand)
    } else {
        raw == operator_holds(op, value, operand)
    }
}

/// The string a condition tests, given the answer to its field's lookup, or
/// `None` for an envelope test on a message without that envelope value.
pub open spec fn condition_input<F: Filterable>(c: Condition, msg: &F, ans: Option<Seq<char>>) -> Option<Seq<char>> {
    match c.field {
        ConditionField::Envelope { address_part, .. } => match ans {
            Some(v) => Some(address_part_spec(v, address_part)),
            None => None,
        },
        _ => Some(field_value_with(msg, c.field, ans)),
    }
}

/// What a condition decides on a message, given the answer to its field's
/// lookup (regex matches taken as finishing within budget), before and
/// after negation.
pub open spec fn condition_holds_with<F: Filterable>(c: Condition, msg: &F, ans: Option<Seq<char>>) -> bool {
    let raw = match condition_input(c, msg, ans) {
        Some(v) => operator_holds(c.operator, v, c.value@),
        None => false,
    };
    if c.negate {
        !raw
    } else {
        raw
    }
}

/// What a condition decides on a message whose lookup answer is the one
/// chosen among its possible answers (the only one, where the lookup is
/// determined).
pub open spec fn condition_holds<F: Filterable>(c: Condition, msg: &F) -> bool {
    condition_holds_with(c, msg, choose|a: Option<Seq<char>>| lookup_answer(msg, c.field, a))
}

/// `b` is a possible result of the condition given the lookup answer `ans`.
pub open spec fn condition_admits_with<F: Filterable>(c: Condition, msg: &F, ans: Option<Seq<char>>, b: bool) -> bool {
    let raw = if c.negate {
        !b
    } else {
        b
    };
    match condition_input(c, msg, ans) {
        Some(v) => operator_admits(c.operator, v, c.value@, raw),
        None => !raw,
    }
}

/// `b` is a possible result of evaluating the condition on the message: for
/// some answer the message may give to the field's lookup.
pub open spec fn condition_admits<F: Filterable>(c: Condition, msg: &F, b: bool) -> bool {
    exists|ans: Option<Seq<char>>| #[trigger] lookup_answer(msg, c.field, ans) && condition_admits_with(c, msg, ans, b)
}

/// Apply a comparison operator to a resolved field value. Shared by the
/// plain and envelope code paths so operator semantics stay identical across
/// `address`/`header`/`envelope` tests.
fn apply_operator(value: &str, condition: &Condition, regex_cache: &RegexCache) -> (r: bool)
    ensures
        operator_admits(condition.operator, value@, condition.value@, r),
{
    match condition.operator {
        Operator::Contains => {
            let value_lower = to_lowercase(value);
            let operand_lower = to_lowercase(condition.value.as_str());
            let hay = chars_of(value_lower.as_str());
            let needle = chars_of(operand_lower.as_str());
            contains_chars(&hay, &needle)
        },
        Operator::Equals => eq_ignore_ascii_case(value, condition.value.as_str()),
        Operator::Matches => glob_match(condition.value.as_str(), value),
        Operator::Regex => evaluate_regex(condition.value.as_str(), value, regex_cache),
        Operator::Exists => !value.is_empty(),
        Operator::NumericEquals => ascii_numeric_eq(condition.value.as_str(), value),
    }
}

/// The verdict of a regex match that took `elapsed_ms` milliseconds: a match
/// that ran over the 100 ms budget is reported as non-matching.
pub fn regex_verdict(matched: bool, elapsed_ms: u128) -> (r: bool)
    ensures
        r == (matched && elapsed_ms <= REGEX_TIMEOUT_MS),
{
    if elapsed_ms > REGEX_TIMEOUT_MS {
        return false;
    }
    matched
}

/// Evaluate a regex condition with a bounded budget: `false` on invalid
/// patterns or when the match exceeds the time budget.
fn evaluate_regex(pattern: &str, input: &str, cache: &RegexCache) -> (r: bool)
    ensures
        r ==> regex_compiles(pattern@) && regex_is_match(pattern@, input@),
{
    let re = match cache.get_or_compile(pattern) {
        Some(re) => re,
        None => return false,
    };
    // The regex crate is linear-time and has no built-in timeout; the
    // wall-clock measurement is a post-hoc safety check.
    let start = instant_now();
    let matched = re.is_match(input);
    let elapsed = instant_elapsed(&start);
    regex_verdict(matched, duration_as_millis(&elapsed))
}

/// Evaluate a single condition against a message.
///
/// Envelope conditions (RFC 5228 §5.1) evaluate as non-matching when the
/// message supplies no envelope data; `:localpart`/`:domain` select the
/// portion of the address compared. Never panics.
pub fn evaluate_condition<F: Filterable>(condition: &Condition, msg: &F, regex_cache: &RegexCache) -> (r: bool)
    ensures
        condition_admits(*condition, msg, r),
{
    let ghost mut ans: Option<Seq<char>> = None;
    let result = match &condition.field {
        ConditionField::Envelope { part, address_part } => {
            let raw = match part {
                EnvelopePart::From => msg.envelope_from(),
                EnvelopePart::To => msg.envelope_to(),
            };
            proof {
                assert(envelope_call(msg, *part, raw));
                ans = opt_str_view(raw);
                assert(lookup_answer(msg, condition.field, ans));
            }
            // Missing envelope data: the test does not match (a negated test
            // then matches, per `not` semantics).
            match raw {
                Some(value) => apply_operator(extract_address_part(value, *address_part), condition, regex_cache),
                None => false,
            }
        },
        _ => {
            let value = field_value(msg, &condition.field);
            proof {
                ans = choose|a: Option<Seq<char>>| #[trigger] lookup_answer(msg, condition.field, a) && value@ == field_value_with(msg, condition.field, a);
            }
            apply_operator(value, condition, regex_cache)
        },
    };
    assert(condition_admits_with(*condition, msg, ans, if condition.negate { !result } else { result }));
    if condition.negate {
        !result
    } else {
        result
    }
}

/// AND / OR of per-condition results.
pub open spec fn combine(logic: LogicOp, results: Seq<bool>) -> bool {
    match logic {
        LogicOp::And => forall|i: int| 0 <= i < results.len() ==> #[trigger] results[i],
        LogicOp::Or => exists|i: int| 0 <= i < results.len() && #[trigger] results[i],
    }
}

/// Every entry of `results` is a possible result of the matching condition.
pub open spec fn results_admitted<F: Filterable>(conditions: Seq<Condition>, msg: &F, results: Seq<bool>) -> bool {
    &&& results.len() == conditions.len()
    &&& forall|i: int| 0 <= i < results.len() ==> condition_admits(conditions[i], msg, #[trigger] results[i])
}

/// `b` is a possible result of evaluating the rule on the message: disabled
/// rules and rules without conditions never match; otherwise the conditions'
/// results are combined by the rule's logic.
pub open spec fn rule_admits<F: Filterable>(rule: FilterRule, msg: &F, b: bool) -> bool {
    if !rule.enabled || rule.conditions@.len() == 0 {
        !b
    } else {
        exists|results: Seq<bool>| #[trigger] results_admitted(rule.conditions@, msg, results)
            && b == combine(rule.condition_logic, results)
    }
}

/// Evaluate a filter rule against a message.
///
/// Returns `true` when the rule matches (all/any conditions satisfied).
/// Disabled rules and rules without conditions always return `false`.
/// Never panics; invalid regex patterns are treated as non-matching.
pub fn evaluate_rule<F: Filterable>(rule: &FilterRule, msg: &F, regex_cache: &RegexCache) -> (r: bool)
    ensures
        rule_admits(*rule, msg, r),
{
    if !rule.enabled {
        return false;
    }
    if rule.conditions.len() == 0 {
        return false;
    }
    let mut results: Vec<bool> = Vec::new();
    let mut i: usize = 0;
    while i < rule.conditions.len()
        invariant
            i <= rule.conditions@.len(),
            results@.len() == i,
            forall|k: int| 0 <= k < i ==> condition_admits(rule.conditions@[k], msg, #[trigger] results@[k]),
        decreases rule.conditions.len() - i,
    {
        let r = evaluate_condition(&rule.conditions[i], msg, regex_cache);
        results.push(r);
        i += 1;
    }
    assert(results_admitted(rule.conditions@, msg, results@));
    match rule.condition_logic {
        LogicOp::And => {
            let mut k: usize = 0;
            while k < results.len()
                invariant
                    k <= results@.len(),
                    forall|j: int| 0 <= j < k ==> #[trigger] results@[j],
                    rule.condition_logic is And,
                    rule.enabled,
                    rule.conditions@.len() > 0,
                    results_admitted(rule.conditions@, msg, results@),
                decreases results.len() - k,
            {
                if !results[k] {
                    assert(!results@[k as int]);
                    assert(!combine(rule.condition_logic, results@));
                    return false;
                }
                k += 1;
            }
            true
        },
        LogicOp::Or => {
            let mut k: usize = 0;
            while k < results.len()
                invariant
                    k <= results@.len(),
                    forall|j: int| 0 <= j < k ==> !#[trigger] results@[j],
                    rule.condition_logic is Or,
                    rule.enabled,
                    rule.conditions@.len() > 0,
                    results_admitted(rule.conditions@, msg, results@),
                decreases results.len() - k,
            {
                if results[k] {
                    assert(results@[k as int]);
                    assert(combine(rule.condition_logic, results@));
                    return true;
                }
                k += 1;
            }
            false
        },
    }
}

/// The first rule that a run over `rules` may have found to match: every rule
/// before index `i` did not match, and rule `i` (when `i < rules.len()`)
/// did; `i == rules.len()` means that no rule matched.
pub open spec fn first_match_at<F: Filterable>(rules: Seq<FilterRule>, msg: &F, i: int) -> bool {
    &&& 0 <= i <= rules.len()
    &&& forall|k: int| 0 <= k < i ==> rule_admits(#[trigger] rules[k], msg, false)
    &&& i < rules.len() ==> rule_admits(rules[i], msg, true)
}

/// The index of the first rule that matches, or `None` when none does.
pub(crate) fn first_match<F: Filterable>(rules: &[FilterRule], msg: &F, regex_cache: &RegexCache) -> (r: Option<usize>)
    ensures
        match r {
            Some(i) => i < rules@.len() && first_match_at(rules@, msg, i as int),
            None => first_match_at(rules@, msg, rules@.len() as int),
        },
{
    let mut i: usize = 0;
    while i < rules.len()
        invariant
            i <= rules@.len(),
            forall|k: int| 0 <= k < i ==> rule_admits(#[trigger] rules@[k], msg, false),
        decreases rules.len() - i,
    {
        if evaluate_rule(&rules[i], msg, regex_cache) {
            return Some(i);
        }
        i += 1;
    }
    None
}

/// Answers whether an automated reply already went to a sender within its
/// respond period (RFC 5230). Supplied by the caller; every
/// `Fn(&str) -> bool` closure is one.
pub trait SeenBefore {
    /// `r` is an answer this hook may give when asked about `sender`.
    spec fn answers(&self, sender: &str, r: bool) -> bool;

    /// Whether a reply was already sent to `sender` within the period.
    fn seen_before(&self, sender: &str) -> (r: bool)
        ensures
            self.answers(sender, r),
    ;
}

/// Calls a caller-supplied closure on `sender` and returns its answer: when
/// the closure's precondition holds of `sender`, the answer is one its
/// postcondition allows (for a closure without a specification nothing more
/// is known of it).
#[verifier::external_body]
fn call_hook<T: Fn(&str) -> bool>(hook: &T, sender: &str) -> (r: bool)
    ensures
        call_requires(*hook, (sender,)) ==> call_ensures(*hook, (sender,), r),
{
    hook(sender)
}

impl<T: Fn(&str) -> bool> SeenBefore for T {
    /// A closure answers what its postcondition allows, where its
    /// precondition holds.
    open spec fn answers(&self, sender: &str, r: bool) -> bool {
        call_requires(*self, (sender,)) ==> call_ensures(*self, (sender,), r)
    }

    /// The closure's answer for `sender`.
    fn seen_before(&self, sender: &str) -> (r: bool)
        ensures
            call_requires(*self, (sender,)) ==> call_ensures(*self, (sender,), r),
    {
        call_hook(self, sender)
    }
}

/// Caller-supplied runtime context for [`evaluate_plan`].
///
/// Evaluation stays synchronous and free of storage access: callers hand in
/// an optional `seen_before` predicate that decides whether an automated
/// reply was already sent to a sender within its respond period.
pub struct EvalContext<'a> {
    /// Respond-once hook for the vacation action (RFC 5230): answers `true`
    /// when a reply was already sent to this sender within the configured
    /// period. When `None`, no dedup is applied and the outcome always
    /// carries the reply.
    pub seen_before: Option<&'a dyn SeenBefore>,
}

impl<'a> Default for EvalContext<'a> {
    /// A context without a dedup hook.
    fn default() -> (r: EvalContext<'a>)
        ensures
            r.seen_before is None,
    {
        EvalContext { seen_before: None }
    }
}

impl<'a> EvalContext<'a> {
    /// Attach a respond-once dedup predicate.
    pub fn with_seen_before(self, seen_before: &'a dyn SeenBefore) -> (r: EvalContext<'a>)
        ensures
            r == (EvalContext { seen_before: Some(seen_before) }),
    {
        EvalContext { seen_before: Some(seen_before) }
    }
}

/// A non-fatal observation made during [`evaluate_plan`]. Evaluation never
/// fails: misconfigured or exotic actions are reported as warnings while
/// the rest of the plan still executes.
#[derive(Clone, Debug, PartialEq, Eq)]
pub enum EvalWarning {
    /// A notify method URI uses a scheme outside `KNOWN_NOTIFY_SCHEMES`. The
    /// notification outcome is still produced; the host decides whether to
    /// attempt delivery.
    UnknownNotifyMethod {
        /// The offending method URI.
        method: String,
    },
    /// A vacation reply could not be routed: neither envelope sender nor
    /// header From yielded a usable address. The reply is omitted.
    VacationNoSender,
}

/// A warning as a mathematical value.
pub enum EvalWarningView {
    UnknownNotifyMethod(Seq<char>),
    VacationNoSender,
}

impl View for EvalWarning {
    type V = EvalWarningView;

    open spec fn view(&self) -> EvalWarningView {
        match self {
            EvalWarning::UnknownNotifyMethod { method } => EvalWarningView::UnknownNotifyMethod(method@),
            EvalWarning::VacationNoSender => EvalWarningView::VacationNoSender,
        }
    }
}

/// The views of a sequence of warnings.
pub open spec fn warnings_view(w: Seq<EvalWarning>) -> Seq<EvalWarningView> {
    w.map_values(|x: EvalWarning| x@)
}

/// The result of evaluating a rule set with [`evaluate_plan`]: the matched
/// rule (if any), the planned outcomes, and any warnings.
#[derive(Clone, Debug)]
pub struct EvalOutcome {
    /// Id of the first matching rule, or `None` when no rule matched.
    pub rule_id: Option<String>,
    /// Outcomes to execute, in rule action order.
    pub plan: Vec<PlannedAction>,
    /// Non-fatal observations (unknown notify schemes, unroutable replies).
    pub warnings: Vec<EvalWarning>,
}

/// An outcome as a mathematical value.
pub struct EvalOutcomeView {
    pub rule_id: Option<Seq<char>>,
    pub plan: Seq<PlannedActionView>,
    pub warnings: Seq<EvalWarningView>,
}

impl View for EvalOutcome {
    type V = EvalOutcomeView;

    open spec fn view(&self) -> EvalOutcomeView {
        EvalOutcomeView {
            rule_id: opt_string_view(self.rule_id),
            plan: plan_view(self.plan@),
            warnings: warnings_view(self.warnings@),
        }
    }
}

impl Default for EvalOutcome {
    /// No matched rule, no outcomes, no warnings.
    fn default() -> (r: EvalOutcome)
        ensures
            r@.rule_id is None,
            r@.plan.len() == 0,
            r@.warnings.len() == 0,
    {
        EvalOutcome { rule_id: None, plan: Vec::new(), warnings: Vec::new() }
    }
}

impl EvalOutcome {
    /// Whether the outcome set is empty (no rule matched and no warnings).
    pub fn is_empty(&self) -> (r: bool)
        ensures
            r == (self@.rule_id is None && self@.plan.len() == 0 && self@.warnings.len() == 0),
    {
        self.rule_id.is_none() && self.plan.len() == 0 && self.warnings.len() == 0
    }
}

/// Where a vacation reply goes, given the message's answer `ans` to
/// `envelope_from`: the envelope sender when it is supplied and non-empty,
/// else the header From address (possibly empty).
pub open spec fn sender_with<F: Filterable>(msg: &F, ans: Option<Seq<char>>) -> Seq<char> {
    match ans {
        Some(s) => if s.len() > 0 {
            s
        } else {
            msg.from_view()
        },
        None => msg.from_view(),
    }
}

/// `s` is where a vacation reply to `msg` may go: the sender for some answer
/// the message may give to `envelope_from`.
pub open spec fn sender_admitted<F: Filterable>(msg: &F, s: Seq<char>) -> bool {
    exists|a: Option<Seq<char>>| #[trigger] envelope_answers(msg, EnvelopePart::From, a) && s == sender_with(msg, a)
}

/// The subject of a vacation reply: the configured one, else
/// `Re: <original subject>`, else `Automated reply` when the original
/// subject is empty.
pub open spec fn reply_subject(v: VacationView, original: Seq<char>) -> Seq<char> {
    match v.subject {
        Some(s) => s,
        None => if original.len() == 0 {
            "Automated reply"@
        } else {
            "Re: "@ + original
        },
    }
}

/// The reply a vacation action yields on a message, sent to `sender`.
pub open spec fn vacation_reply_spec<F: Filterable>(v: VacationView, msg: &F, sender: Seq<char>) -> VacationReplyView {
    VacationReplyView {
        to: sender,
        days: v.days,
        subject: reply_subject(v, msg.subject_view()),
        from: v.from,
        message: v.message,
    }
}

/// Planned outcomes and warnings, side by side.
pub type Resolution = (Seq<PlannedActionView>, Seq<EvalWarningView>);

/// One vacation action resolved onto `acc`, with the reply going to
/// `sender`: an unroutable reply (empty sender) adds a warning; a reply
/// already sent (`replied`) adds nothing; otherwise the reply is planned.
pub open spec fn vacation_step<F: Filterable>(
    acc: Resolution,
    v: VacationView,
    msg: &F,
    sender: Seq<char>,
    replied: bool,
) -> Resolution {
    if sender.len() == 0 {
        (acc.0, acc.1.push(EvalWarningView::VacationNoSender))
    } else if replied {
        acc
    } else {
        (acc.0.push(PlannedActionView::Vacation(vacation_reply_spec(v, msg, sender))), acc.1)
    }
}

/// One action resolved onto `acc`. Vacation actions go through
/// [`vacation_step`]; notify actions are planned, with a warning when the
/// method's scheme is unknown; every other action is planned as translated.
pub open spec fn action_step<F: Filterable>(
    acc: Resolution,
    a: ActionView,
    msg: &F,
    sender: Seq<char>,
    replied: bool,
) -> Resolution {
    match a {
        ActionView::Vacation(v) => vacation_step(acc, v, msg, sender, replied),
        ActionView::Notify(method, _) => (
            acc.0.push(planned_view(a)),
            if is_known_method(method) {
                acc.1
            } else {
                acc.1.push(EvalWarningView::UnknownNotifyMethod(method))
            },
        ),
        _ => (acc.0.push(planned_view(a)), acc.1),
    }
}

/// The actions of a matched rule resolved in order, where `senders[k]` is
/// where a vacation reply of action `k` goes and `replied[k]` what the
/// dedup hook answered for it.
pub open spec fn resolve_actions<F: Filterable>(
    actions: Seq<ActionView>,
    msg: &F,
    replied: Seq<bool>,
    senders: Seq<Seq<char>>,
) -> Resolution
    decreases actions.len(),
{
    if actions.len() == 0 {
        (Seq::empty(), Seq::empty())
    } else {
        action_step(
            resolve_actions(actions.drop_last(), msg, replied.drop_last(), senders.drop_last()),
            actions.last(),
            msg,
            senders.last(),
            replied.last(),
        )
    }
}

/// `replied` is what the dedup hook (if any) may have answered for a reply
/// to `sender`: without a hook, or for an unroutable reply, it is `false`;
/// otherwise it is an answer the hook gives for a string with the sender's
/// characters.
pub open spec fn hook_answers(hook: Option<&dyn SeenBefore>, sender: Seq<char>, replied: bool) -> bool {
    match hook {
        None => !replied,
        Some(h) => if sender.len() == 0 {
            !replied
        } else {
            exists|s: &str| s@ == sender && #[trigger] h.answers(s, replied)
        },
    }
}

/// `out` is what resolving `actions` gives for some senders the message may
/// route each vacation reply to, and for the hook's answers on them; without
/// a hook nothing counts as replied.
pub open spec fn resolution_admits<F: Filterable>(
    actions: Seq<ActionView>,
    msg: &F,
    hook: Option<&dyn SeenBefore>,
    out: Resolution,
) -> bool {
    exists|replied: Seq<bool>, senders: Seq<Seq<char>>|
        replied.len() == actions.len() && senders.len() == actions.len()
        && (hook is None ==> forall|k: int| 0 <= k < replied.len() ==> !#[trigger] replied[k])
        && (forall|k: int| 0 <= k < actions.len() && (#[trigger] actions[k]) is Vacation ==>
            sender_admitted(msg, senders[k]) && hook_answers(hook, senders[k], replied[k]))
        && #[trigger] resolve_actions(actions, msg, replied, senders) == out
}

/// `out` is a possible result of [`evaluate_plan`]: the first matching rule
/// (as [`first_match_at`] allows) gives the id, and its actions, resolved,
/// give the plan and warnings; when no rule matches, the outcome is empty.
pub open spec fn outcome_admits<F: Filterable>(
    rules: Seq<FilterRule>,
    msg: &F,
    hook: Option<&dyn SeenBefore>,
    out: EvalOutcomeView,
) -> bool {
    exists|i: int|
        #[trigger] first_match_at(rules, msg, i) && if i == rules.len() {
            out.rule_id is None && out.plan.len() == 0 && out.warnings.len() == 0
        } else {
            out.rule_id == Some(rules[i].id@) && resolution_admits(
                actions_view(rules[i].actions@),
                msg,
                hook,
                (out.plan, out.warnings),
            )
        }
}

/// The address a vacation reply to `msg` goes to: the envelope sender when
/// it is supplied and non-empty, else the header From address.
pub fn vacation_sender<F: Filterable>(msg: &F) -> (r: String)
    ensures
        sender_admitted(msg, r@),
{
    let raw = msg.envelope_from();
    proof {
        assert(envelope_call(msg, EnvelopePart::From, raw));
        assert(envelope_answers(msg, EnvelopePart::From, opt_str_view(raw)));
    }
    match raw {
        Some(s) => if !s.is_empty() {
            s.to_owned()
        } else {
            msg.from().to_owned()
        },
        None => msg.from().to_owned(),
    }
}

/// The subject of a vacation reply to a message whose subject is `original`.
fn vacation_subject(vacation: &Vacation, original: &str) -> (r: String)
    ensures
        r@ == reply_subject(vacation@, original@),
{
    match &vacation.subject {
        Some(s) => s.clone(),
        None => if original.is_empty() {
            "Automated reply".to_owned()
        } else {
            "Re: ".to_owned().concat(original)
        },
    }
}

proof fn lemma_plan_push(p: Seq<PlannedAction>, x: PlannedAction)
    ensures
        plan_view(p.push(x)) == plan_view(p).push(x@),
{
    assert(plan_view(p.push(x)) =~= plan_view(p).push(x@));
}

proof fn lemma_warnings_push(w: Seq<EvalWarning>, x: EvalWarning)
    ensures
        warnings_view(w.push(x)) == warnings_view(w).push(x@),
{
    assert(warnings_view(w.push(x)) =~= warnings_view(w).push(x@));
}

/// Resolve a vacation action onto `outcome`, with the reply going to
/// `sender`, given whether a reply already went there (`already_replied`):
/// an unroutable reply (empty sender) adds [`EvalWarning::VacationNoSender`],
/// a reply already sent is suppressed, and otherwise the reply is planned.
pub fn resolve_vacation<F: Filterable>(
    vacation: &Vacation,
    msg: &F,
    sender: &str,
    already_replied: bool,
    outcome: &mut EvalOutcome,
)
    ensures
        final(outcome)@.rule_id == old(outcome)@.rule_id,
        (final(outcome)@.plan, final(outcome)@.warnings) == vacation_step(
            (old(outcome)@.plan, old(outcome)@.warnings),
            vacation@,
            msg,
            sender@,
            already_replied,
        ),
{
    if sender.is_empty() {
        proof { lemma_warnings_push(outcome.warnings@, EvalWarning::VacationNoSender); }
        outcome.warnings.push(EvalWarning::VacationNoSender);
        return;
    }
    if already_replied {
        // Respond once per sender per period: suppress silently.
        return;
    }
    let subject = vacation_subject(vacation, msg.subject());
    let reply = VacationReply {
        to: sender.to_owned(),
        days: vacation.days,
        subject,
        from: copy_opt_string(&vacation.from),
        message: vacation.message.clone(),
    };
    proof { lemma_plan_push(outcome.plan@, PlannedAction::Vacation(reply)); }
    outcome.plan.push(PlannedAction::Vacation(reply));
}

/// Resolve a vacation action, asking the context's hook (if any) whether a
/// reply already went to the sender; returns the answer that was used and
/// the sender the reply was routed to.
fn plan_vacation<F: Filterable>(
    vacation: &Vacation,
    msg: &F,
    ctx: &EvalContext,
    outcome: &mut EvalOutcome,
) -> (res: (bool, Ghost<Seq<char>>))
    ensures
        final(outcome)@.rule_id == old(outcome)@.rule_id,
        sender_admitted(msg, res.1@),
        hook_answers(ctx.seen_before, res.1@, res.0),
        (final(outcome)@.plan, final(outcome)@.warnings) == vacation_step(
            (old(outcome)@.plan, old(outcome)@.warnings),
            vacation@,
            msg,
            res.1@,
            res.0,
        ),
{
    let sender = vacation_sender(msg);
    let replied = if sender.as_str().is_empty() {
        false
    } else {
        match ctx.seen_before {
            Some(seen) => {
                let asked = sender.as_str();
                let answer = seen.seen_before(asked);
                assert(seen.answers(asked, answer));
                answer
            },
            None => false,
        }
    };
    resolve_vacation(vacation, msg, sender.as_str(), replied, outcome);
    (replied, Ghost(sender@))
}

/// Evaluate rules against a message and resolve them into execution-ready
/// outcomes.
///
/// Like `collect_matches` this is first-match-wins, but the returned plan
/// additionally resolves the actions that need runtime context: a vacation
/// reply is routed to the envelope sender (falling back to the header From
/// address), its subject defaults to `Re: <original subject>`, a reply
/// already sent (per [`EvalContext::seen_before`]) is suppressed, and an
/// unroutable reply emits [`EvalWarning::VacationNoSender`]; a notify method
/// with an unrecognized scheme emits [`EvalWarning::UnknownNotifyMethod`].
/// Pure and synchronous; never panics.
pub fn evaluate_plan<F: Filterable>(rules: &[FilterRule], msg: &F, ctx: &EvalContext, regex_cache: &RegexCache) -> (r: EvalOutcome)
    ensures
        outcome_admits(rules@, msg, ctx.seen_before, r@),
{
    let found = first_match(rules, msg, regex_cache);
    let i = match found {
        None => {
            let empty = EvalOutcome::default();
            assert(first_match_at(rules@, msg, rules@.len() as int));
            return empty;
        },
        Some(i) => i,
    };
    let rule = &rules[i];
    let mut outcome = EvalOutcome { rule_id: Some(rule.id.clone()), plan: Vec::new(), warnings: Vec::new() };
    let ghost actions = actions_view(rule.actions@);
    let ghost hook = ctx.seen_before;
    let ghost mut replied: Seq<bool> = Seq::empty();
    let ghost mut senders: Seq<Seq<char>> = Seq::empty();
    proof {
        assert(plan_view(outcome.plan@) =~= Seq::<PlannedActionView>::empty());
        assert(warnings_view(outcome.warnings@) =~= Seq::<EvalWarningView>::empty());
        assert(actions.subrange(0, 0) =~= Seq::<ActionView>::empty());
    }
    let mut j: usize = 0;
    while j < rule.actions.len()
        invariant
            j <= rule.actions@.len(),
            actions == actions_view(rule.actions@),
            hook == ctx.seen_before,
            outcome@.rule_id == Some(rule.id@),
            replied.len() == j,
            senders.len() == j,
            hook is None ==> forall|k: int| 0 <= k < replied.len() ==> !#[trigger] replied[k],
            forall|k: int| 0 <= k < j && (#[trigger] actions[k]) is Vacation ==>
                sender_admitted(msg, senders[k]) && hook_answers(hook, senders[k], replied[k]),
            (outcome@.plan, outcome@.warnings) == resolve_actions(actions.subrange(0, j as int), msg, replied, senders),
        decreases rule.actions.len() - j,
    {
        let ghost before: Resolution = (outcome@.plan, outcome@.warnings);
        let ghost prev_replied = replied;
        let ghost prev_senders = senders;
        proof {
            assert(actions.subrange(0, j + 1).drop_last() =~= actions.subrange(0, j as int));
            assert(actions.subrange(0, j + 1).last() == rule.actions@[j as int]@);
            assert(actions[j as int] == rule.actions@[j as int]@);
        }
        let step: (bool, Ghost<Seq<char>>) = match &rule.actions[j] {
            Action::Vacation(vacation) => plan_vacation(vacation, msg, ctx, &mut outcome),
            Action::Notify(notify) => {
                if !notify.has_known_scheme() {
                    let w = EvalWarning::UnknownNotifyMethod { method: notify.method.clone() };
                    proof { lemma_warnings_push(outcome.warnings@, w); }
                    outcome.warnings.push(w);
                }
                let p = PlannedAction::from_action(&rule.actions[j]);
                proof { lemma_plan_push(outcome.plan@, p); }
                outcome.plan.push(p);
                (false, Ghost(Seq::empty()))
            },
            _ => {
                let p = PlannedAction::from_action(&rule.actions[j]);
                proof { lemma_plan_push(outcome.plan@, p); }
                outcome.plan.push(p);
                (false, Ghost(Seq::empty()))
            },
        };
        proof {
            replied = replied.push(step.0);
            senders = senders.push(step.1@);
            assert(replied.drop_last() =~= prev_replied);
            assert(senders.drop_last() =~= prev_senders);
            assert((outcome@.plan, outcome@.warnings) == action_step(before, rule.actions@[j as int]@, msg, step.1@, step.0));
            assert forall|k: int| 0 <= k < j + 1 && (#[trigger] actions[k]) is Vacation implies
                sender_admitted(msg, senders[k]) && hook_answers(hook, senders[k], replied[k]) by {
                if k < j {
                    assert(senders[k] == prev_senders[k] && replied[k] == prev_replied[k]);
                }
            }
        }
        j += 1;
    }
    proof {
        assert(actions.subrange(0, rule.actions@.len() as int) =~= actions);
        assert(resolution_admits(actions, msg, hook, (outcome@.plan, outcome@.warnings)));
        assert(first_match_at(rules@, msg, i as int));
    }
    outcome
}

/// Holds of the rules whose priority is `p`.
pub open spec fn priority_is(p: i32) -> spec_fn(FilterRule) -> bool {
    |r: FilterRule| r.priority == p
}

/// The rules of `rules` whose priority is `p`, in their order.
pub open spec fn with_priority(rules: Seq<FilterRule>, p: i32) -> Seq<FilterRule> {
    rules.filter(priority_is(p))
}

/// Priorities never decrease along `rules`.
pub open spec fn sorted_by_priority(rules: Seq<FilterRule>) -> bool {
    forall|a: int, b: int| 0 <= a < b < rules.len() ==> #[trigger] rules[a].priority <= #[trigger] rules[b].priority
}

/// `<[T]>::swap(i, j)`: exchanges the elements at `i` and `j` (both in
/// bounds, where it does not panic).
#[verifier::external_body]
fn slice_swap<T>(s: &mut [T], i: usize, j: usize)
    requires
        i < old(s)@.len(),
        j < old(s)@.len(),
    ensures
        final(s)@ == old(s)@.update(i as int, old(s)@[j as int]).update(j as int, old(s)@[i as int]),
{
    s.swap(i, j)
}

proof fn lemma_filter_pair(x: FilterRule, y: FilterRule, p: i32)
    requires
        x.priority != y.priority,
    ensures
        seq![x, y].filter(priority_is(p)) == seq![y, x].filter(priority_is(p)),
{
    let pred = priority_is(p);
    let e = Seq::<FilterRule>::empty();
    assert(e.filter(pred) =~= e) by {
        reveal(Seq::filter);
    }
    assert(seq![x] =~= e.push(x));
    assert(seq![y] =~= e.push(y));
    assert(seq![x, y] =~= seq![x].push(y));
    assert(seq![y, x] =~= seq![y].push(x));
    e.lemma_filter_push(x, pred);
    e.lemma_filter_push(y, pred);
    seq![x].lemma_filter_push(y, pred);
    seq![y].lemma_filter_push(x, pred);
}

/// Exchanging two neighbours of different priority leaves every priority
/// group as it was.
proof fn lemma_swap_keeps_groups(s: Seq<FilterRule>, j: int)
    requires
        0 < j < s.len(),
        s[j - 1].priority != s[j].priority,
    ensures
        forall|p: i32| #[trigger] with_priority(s.update(j - 1, s[j]).update(j, s[j - 1]), p) == with_priority(s, p),
{
    let t = s.update(j - 1, s[j]).update(j, s[j - 1]);
    let a = s.subrange(0, j - 1);
    let b = s.subrange(j + 1, s.len() as int);
    let xy = seq![s[j - 1], s[j]];
    let yx = seq![s[j], s[j - 1]];
    assert(s =~= a + xy + b);
    assert(t =~= a + yx + b);
    assert forall|p: i32| #[trigger] with_priority(t, p) == with_priority(s, p) by {
        let pred = priority_is(p);
        Seq::filter_distributes_over_add(a + xy, b, pred);
        Seq::filter_distributes_over_add(a, xy, pred);
        Seq::filter_distributes_over_add(a + yx, b, pred);
        Seq::filter_distributes_over_add(a, yx, pred);
        lemma_filter_pair(s[j - 1], s[j], p);
    }
}

/// Sort rules by priority, ascending (lowest value, evaluated first, comes
/// first). The sort is stable: rules of equal priority keep their order.
pub fn sort_rules_by_priority(rules: &mut [FilterRule])
    ensures
        sorted_by_priority(final(rules)@),
        forall|p: i32| #[trigger] with_priority(final(rules)@, p) == with_priority(old(rules)@, p),
{
    let n = rules.len();
    let mut i: usize = 0;
    while i < n
        invariant
            n == rules@.len(),
            i <= n,
            forall|a: int, b: int| 0 <= a < b < i ==> #[trigger] rules@[a].priority <= #[trigger] rules@[b].priority,
            forall|p: i32| #[trigger] with_priority(rules@, p) == with_priority(old(rules)@, p),
        decreases n - i,
    {
        let mut j: usize = i;
        while j > 0 && rules[j - 1].priority > rules[j].priority
            invariant
                n == rules@.len(),
                j <= i < n,
                forall|a: int, b: int|
                    0 <= a < b <= i && a != j && b != j ==> #[trigger] rules@[a].priority <= #[trigger] rules@[b].priority,
                forall|b: int| j < b <= i ==> rules@[j as int].priority < #[trigger] rules@[b].priority,
                forall|p: i32| #[trigger] with_priority(rules@, p) == with_priority(old(rules)@, p),
            decreases j,
        {
            proof { lemma_swap_keeps_groups(rules@, j as int); }
            slice_swap(rules, j - 1, j);
            j -= 1;
        }
        proof {
            assert forall|a: int, b: int| 0 <= a < b <= i implies #[trigger] rules@[a].priority <= #[trigger] rules@[b].priority by {
                if b == j && a < j as int - 1 {
                    assert(rules@[a].priority <= rules@[j - 1].priority);
                }
            }
        }
        i += 1;
    }
}

/// The rule has a regex condition (whose verdict depends on how long the
/// match took).
pub open spec fn has_regex(rule: FilterRule) -> bool {
    exists|i: int| 0 <= i < rule.conditions@.len() && (#[trigger] rule.conditions@[i]).operator is Regex
}

/// Negation inverts a condition: `b` is a possible result of the condition
/// with `negate` flipped exactly when `!b` is one of the condition itself,
/// and without a regex operator the decided value flips.
pub proof fn law_negation_inverts<F: Filterable>(c: Condition, msg: &F, b: bool)
    ensures
        condition_admits((Condition { negate: !c.negate, ..c }), msg, b) == condition_admits(c, msg, !b),
        !(c.operator is Regex) ==> condition_holds((Condition { negate: !c.negate, ..c }), msg) == !condition_holds(c, msg),
{
}

/// Every condition of the rule has a lookup the message answers in one way
/// only.
pub open spec fn rule_lookups_determined<F: Filterable>(rule: FilterRule, msg: &F) -> bool {
    forall|i: int| 0 <= i < rule.conditions@.len() ==> lookup_determined(msg, (#[trigger] rule.conditions@[i]).field)
}

/// Without a regex operator, on a message that answers the condition's
/// lookup in one way only, a condition is deterministic: its only possible
/// result is the decided one, and that one is possible whenever the
/// message answers at all.
pub proof fn law_condition_deterministic<F: Filterable>(c: Condition, msg: &F, b: bool)
    requires
        !(c.operator is Regex),
        lookup_determined(msg, c.field),
    ensures
        condition_admits(c, msg, b) ==> b == condition_holds(c, msg),
        lookup_answered(msg, c.field) ==> condition_admits(c, msg, condition_holds(c, msg)),
{
    let chosen = choose|a: Option<Seq<char>>| lookup_answer(msg, c.field, a);
    if condition_admits(c, msg, b) {
        let a = choose|a: Option<Seq<char>>| #[trigger] lookup_answer(msg, c.field, a) && condition_admits_with(c, msg, a, b);
        assert(lookup_answer(msg, c.field, chosen));
        assert(a == chosen);
    }
    if lookup_answered(msg, c.field) {
        assert(lookup_answer(msg, c.field, chosen));
        assert(condition_admits_with(c, msg, chosen, condition_holds(c, msg)));
    }
}

/// An invalid regex pattern never matches: the condition's result is its
/// `negate` flag.
pub proof fn law_invalid_regex_never_matches<F: Filterable>(c: Condition, msg: &F, b: bool)
    requires
        c.operator is Regex,
        !regex_compiles(c.value@),
        condition_admits(c, msg, b),
    ensures
        b == c.negate,
{
}

/// An envelope test on a message that reports no envelope value for its
/// part does not match: the condition's result is its `negate` flag.
pub proof fn law_missing_envelope_never_matches<F: Filterable>(c: Condition, msg: &F, b: bool)
    requires
        c.field matches ConditionField::Envelope { part, .. }
            && forall|a: Option<Seq<char>>| #[trigger] envelope_answers(msg, part, a) ==> a is None,
        condition_admits(c, msg, b),
    ensures
        b == c.negate,
{
    let a = choose|a: Option<Seq<char>>| #[trigger] lookup_answer(msg, c.field, a) && condition_admits_with(c, msg, a, b);
    assert(a is None);
}

/// Disabled rules and rules without conditions never match.
pub proof fn law_inactive_rule_never_matches<F: Filterable>(rule: FilterRule, msg: &F, b: bool)
    requires
        !rule.enabled || rule.conditions@.len() == 0,
        rule_admits(rule, msg, b),
    ensures
        !b,
{
}

/// For an active rule without regex conditions, on a message that answers
/// each lookup in one way only, rule evaluation agrees with combining the
/// conditions' decided values by the rule's logic (and that combination is
/// a possible result whenever the message answers every lookup).
pub proof fn law_rule_combines_conditions<F: Filterable>(rule: FilterRule, msg: &F, b: bool)
    requires
        rule.enabled,
        rule.conditions@.len() > 0,
        !has_regex(rule),
        rule_lookups_determined(rule, msg),
    ensures
        rule_admits(rule, msg, b) ==> b == combine(
            rule.condition_logic,
            Seq::new(rule.conditions@.len(), |i: int| condition_holds(rule.conditions@[i], msg)),
        ),
        (forall|i: int| 0 <= i < rule.conditions@.len() ==> lookup_answered(msg, (#[trigger] rule.conditions@[i]).field))
            && b == combine(
            rule.condition_logic,
            Seq::new(rule.conditions@.len(), |i: int| condition_holds(rule.conditions@[i], msg)),
        ) ==> rule_admits(rule, msg, b),
{
    let conds = rule.conditions@;
    let decided = Seq::new(conds.len(), |i: int| condition_holds(conds[i], msg));
    assert forall|results: Seq<bool>| results_admitted(conds, msg, results) implies results == decided by {
        assert forall|i: int| 0 <= i < results.len() implies results[i] == decided[i] by {
            assert(condition_admits(conds[i], msg, results[i]));
            assert(!(conds[i].operator is Regex));
            assert(lookup_determined(msg, conds[i].field));
            law_condition_deterministic(conds[i], msg, results[i]);
        }
        assert(results =~= decided);
    }
    if forall|i: int| 0 <= i < conds.len() ==> lookup_answered(msg, (#[trigger] conds[i]).field) {
        assert forall|i: int| 0 <= i < decided.len() implies condition_admits(conds[i], msg, #[trigger] decided[i]) by {
            assert(!(conds[i].operator is Regex));
            assert(lookup_determined(msg, conds[i].field));
            assert(lookup_answered(msg, conds[i].field));
            law_condition_deterministic(conds[i], msg, decided[i]);
        }
        assert(results_admitted(conds, msg, decided));
    }
}

/// Without regex conditions, on a message that answers each lookup in one
/// way only, a rule's result is determined.
pub proof fn law_rule_deterministic<F: Filterable>(rule: FilterRule, msg: &F, b1: bool, b2: bool)
    requires
        !has_regex(rule),
        rule_lookups_determined(rule, msg),
        rule_admits(rule, msg, b1),
        rule_admits(rule, msg, b2),
    ensures
        b1 == b2,
{
    if rule.enabled && rule.conditions@.len() > 0 {
        law_rule_combines_conditions(rule, msg, b1);
        law_rule_combines_conditions(rule, msg, b2);
    }
}

/// Without regex conditions, on a message that answers each lookup in one
/// way only, the first matching rule is unique, so first-match evaluation
/// (`collect_matches`, `evaluate_plan`) is deterministic.
pub proof fn law_first_match_unique<F: Filterable>(rules: Seq<FilterRule>, msg: &F, i: int, j: int)
    requires
        forall|k: int| 0 <= k < rules.len() ==> !has_regex(#[trigger] rules[k]) && rule_lookups_determined(rules[k], msg),
        first_match_at(rules, msg, i),
        first_match_at(rules, msg, j),
    ensures
        i == j,
{
    if i < j {
        law_rule_deterministic(rules[i], msg, true, false);
    } else if j < i {
        law_rule_deterministic(rules[j], msg, true, false);
    }
}

/// The provided message types answer every lookup in one way only: a
/// `MailEnvelope` reports its own headers and envelope fields.
pub proof fn law_mail_envelope_determined(msg: &MailEnvelope, field: ConditionField)
    ensures
        lookup_determined(msg, field),
{
    assert forall|a1: Option<Seq<char>>, a2: Option<Seq<char>>|
        #[trigger] lookup_answer(msg, field, a1) && #[trigger] lookup_answer(msg, field, a2) implies a1 == a2 by {
        match field {
            ConditionField::Header(name) => {
                let (s1, r1) = choose|s: &str, r: Option<&str>| s@ == name@ && #[trigger] header_call(msg, s, r) && opt_str_view(r) == a1;
                let (s2, r2) = choose|s: &str, r: Option<&str>| s@ == name@ && #[trigger] header_call(msg, s, r) && opt_str_view(r) == a2;
                assert(header_call(msg, s1, r1));
                assert(header_call(msg, s2, r2));
            },
            ConditionField::Envelope { part, .. } => {
                let r1 = choose|r: Option<&str>| #[trigger] envelope_call(msg, part, r) && opt_str_view(r) == a1;
                let r2 = choose|r: Option<&str>| #[trigger] envelope_call(msg, part, r) && opt_str_view(r) == a2;
                assert(envelope_call(msg, part, r1));
                assert(envelope_call(msg, part, r2));
            },
            _ => {},
        }
    }
}

/// A `FieldValues` answers every lookup in one way only: it reports its own
/// headers and envelope fields.
pub proof fn law_field_values_determined<'a>(msg: &FieldValues<'a>, field: ConditionField)
    ensures
        lookup_determined(msg, field),
{
    assert forall|a1: Option<Seq<char>>, a2: Option<Seq<char>>|
        #[trigger] lookup_answer(msg, field, a1) && #[trigger] lookup_answer(msg, field, a2) implies a1 == a2 by {
        match field {
            ConditionField::Header(name) => {
                let (s1, r1) = choose|s: &str, r: Option<&str>| s@ == name@ && #[trigger] header_call(msg, s, r) && opt_str_view(r) == a1;
                let (s2, r2) = choose|s: &str, r: Option<&str>| s@ == name@ && #[trigger] header_call(msg, s, r) && opt_str_view(r) == a2;
                assert(header_call(msg, s1, r1));
                assert(header_call(msg, s2, r2));
            },
            ConditionField::Envelope { part, .. } => {
                let r1 = choose|r: Option<&str>| #[trigger] envelope_call(msg, part, r) && opt_str_view(r) == a1;
                let r2 = choose|r: Option<&str>| #[trigger] envelope_call(msg, part, r) && opt_str_view(r) == a2;
                assert(envelope_call(msg, part, r1));
                assert(envelope_call(msg, part, r2));
            },
            _ => {},
        }
    }
}

/// A `MailEnvelope` reports its own fields: its From, To, Cc, Subject, Body
/// and attachment flag are the struct's fields, its envelope answers are its
/// envelope fields, and a header answer is the value of the first header
/// whose name equals the asked name ignoring ASCII case.
pub proof fn law_mail_envelope_reports_its_fields(msg: &MailEnvelope, name: Seq<char>, a: Option<Seq<char>>)
    ensures
        msg.from_view() == msg.from@,
        msg.to_view() == msg.to@,
        msg.cc_view() == msg.cc@,
        msg.subject_view() == msg.subject@,
        msg.body_view() == msg.body@,
        msg.has_attachment_view() == msg.has_attachment,
        envelope_answers(msg, EnvelopePart::From, a) ==> a == opt_string_view(msg.envelope_from),
        envelope_answers(msg, EnvelopePart::To, a) ==> a == opt_string_view(msg.envelope_to),
        header_answers(msg, name, a) ==> a == lookup_header(string_headers_view(msg.headers@), name),
{
    if envelope_answers(msg, EnvelopePart::From, a) {
        let r = choose|r: Option<&str>| #[trigger] envelope_call(msg, EnvelopePart::From, r) && opt_str_view(r) == a;
        assert(envelope_call(msg, EnvelopePart::From, r));
    }
    if envelope_answers(msg, EnvelopePart::To, a) {
        let r = choose|r: Option<&str>| #[trigger] envelope_call(msg, EnvelopePart::To, r) && opt_str_view(r) == a;
        assert(envelope_call(msg, EnvelopePart::To, r));
    }
    if header_answers(msg, name, a) {
        let (s, r) = choose|s: &str, r: Option<&str>| s@ == name && #[trigger] header_call(msg, s, r) && opt_str_view(r) == a;
        assert(header_call(msg, s, r));
    }
}

/// A `FieldValues` reports its own fields: its From, To, Cc, Subject, Body
/// and attachment flag are the struct's fields, its envelope answers are its
/// envelope fields, and a header answer is the value of the first header
/// whose name equals the asked name ignoring ASCII case.
pub proof fn law_field_values_report_their_fields<'a>(msg: &FieldValues<'a>, name: Seq<char>, a: Option<Seq<char>>)
    ensures
        msg.from_view() == msg.from@,
        msg.to_view() == msg.to@,
        msg.cc_view() == msg.cc@,
        msg.subject_view() == msg.subject@,
        msg.body_view() == msg.body@,
        msg.has_attachment_view() == msg.has_attachment,
        envelope_answers(msg, EnvelopePart::From, a) ==> a == opt_str_view(msg.envelope_from),
        envelope_answers(msg, EnvelopePart::To, a) ==> a == opt_str_view(msg.envelope_to),
        header_answers(msg, name, a) ==> a == lookup_header(str_headers_view(msg.headers@), name),
{
    if envelope_answers(msg, EnvelopePart::From, a) {
        let r = choose|r: Option<&str>| #[trigger] envelope_call(msg, EnvelopePart::From, r) && opt_str_view(r) == a;
        assert(envelope_call(msg, EnvelopePart::From, r));
    }
    if envelope_answers(msg, EnvelopePart::To, a) {
        let r = choose|r: Option<&str>| #[trigger] envelope_call(msg, EnvelopePart::To, r) && opt_str_view(r) == a;
        assert(envelope_call(msg, EnvelopePart::To, r));
    }
    if header_answers(msg, name, a) {
        let (s, r) = choose|s: &str, r: Option<&str>| s@ == name && #[trigger] header_call(msg, s, r) && opt_str_view(r) == a;
        assert(header_call(msg, s, r));
    }
}

/// When no rule can match, the plan outcome is empty: no rule id, no
/// outcomes, no warnings (the implicit `keep`).
pub proof fn law_no_match_empty_outcome<F: Filterable>(
    rules: Seq<FilterRule>,
    msg: &F,
    hook: Option<&dyn SeenBefore>,
    out: EvalOutcomeView,
)
    requires
        forall|k: int| 0 <= k < rules.len() ==> !rule_admits(#[trigger] rules[k], msg, true),
        outcome_admits(rules, msg, hook, out),
    ensures
        out.rule_id is None,
        out.plan.len() == 0,
        out.warnings.len() == 0,
{
    let i = choose|i: int| #[trigger] first_match_at(rules, msg, i) && if i == rules.len() {
        out.rule_id is None && out.plan.len() == 0 && out.warnings.len() == 0
    } else {
        out.rule_id == Some(rules[i].id@) && resolution_admits(
            actions_view(rules[i].actions@),
            msg,
            hook,
            (out.plan, out.warnings),
        )
    };
    if i < rules.len() {
        assert(rule_admits(rules[i], msg, true));
    }
}

/// `n` answers "not replied".
pub open spec fn no_replies(n: nat) -> Seq<bool> {
    Seq::new(n, |k: int| false)
}

/// Without a dedup hook nothing counts as already replied: every routable
/// vacation reply is planned.
pub proof fn law_unhooked_resolution<F: Filterable>(actions: Seq<ActionView>, msg: &F, out: Resolution)
    requires
        resolution_admits(actions, msg, None, out),
    ensures
        exists|senders: Seq<Seq<char>>|
            senders.len() == actions.len() && (forall|k: int|
                0 <= k < actions.len() && (#[trigger] actions[k]) is Vacation ==> sender_admitted(msg, senders[k]))
                && out == #[trigger] resolve_actions(actions, msg, no_replies(actions.len()), senders),
{
    let (replied, senders) = choose|replied: Seq<bool>, senders: Seq<Seq<char>>|
        replied.len() == actions.len() && senders.len() == actions.len()
        && (None::<&dyn SeenBefore> is None ==> forall|k: int| 0 <= k < replied.len() ==> !#[trigger] replied[k])
        && (forall|k: int| 0 <= k < actions.len() && (#[trigger] actions[k]) is Vacation ==>
            sender_admitted(msg, senders[k]) && hook_answers(None, senders[k], replied[k]))
        && #[trigger] resolve_actions(actions, msg, replied, senders) == out;
    assert(replied =~= no_replies(actions.len()));
}

/// How a vacation reply is routed and worded: it goes to the envelope
/// sender when that is non-empty, else to the header From address; it
/// carries the action's days, sender and message; its subject is the
/// configured one, else `Re: ` followed by the original subject, else
/// `Automated reply` when the original subject is empty.
pub proof fn law_vacation_reply<F: Filterable>(v: VacationView, msg: &F, ans: Option<Seq<char>>, sender: Seq<char>)
    ensures
        ans matches Some(s) ==> (s.len() > 0 ==> sender_with(msg, ans) == s),
        !(ans matches Some(s) && s.len() > 0) ==> sender_with(msg, ans) == msg.from_view(),
        vacation_reply_spec(v, msg, sender).to == sender,
        vacation_reply_spec(v, msg, sender).days == v.days,
        vacation_reply_spec(v, msg, sender).from == v.from,
        vacation_reply_spec(v, msg, sender).message == v.message,
        v.subject matches Some(s) ==> vacation_reply_spec(v, msg, sender).subject == s,
        v.subject is None && msg.subject_view().len() > 0 ==> vacation_reply_spec(v, msg, sender).subject
            == "Re: "@ + msg.subject_view(),
        v.subject is None && msg.subject_view().len() == 0 ==> vacation_reply_spec(v, msg, sender).subject
            == "Automated reply"@,
{
}

/// One vacation action's effect on the outcome: without a sender it adds
/// only a `VacationNoSender` warning; with a sender already replied to it
/// changes nothing; otherwise it appends the reply to that sender to the
/// plan and adds no warning.
pub proof fn law_vacation_step<F: Filterable>(
    acc: Resolution,
    v: VacationView,
    msg: &F,
    sender: Seq<char>,
    replied: bool,
)
    ensures
        sender.len() == 0 ==> vacation_step(acc, v, msg, sender, replied) == (
            acc.0,
            acc.1.push(EvalWarningView::VacationNoSender),
        ),
        sender.len() > 0 && replied ==> vacation_step(acc, v, msg, sender, replied) == acc,
        sender.len() > 0 && !replied ==> vacation_step(acc, v, msg, sender, replied) == (
            acc.0.push(PlannedActionView::Vacation(vacation_reply_spec(v, msg, sender))),
            acc.1,
        ),
{
}

/// The warnings raised by the notify actions among `actions`, in order: one
/// for each notify method whose scheme is not a known one.
pub open spec fn notify_warnings(actions: Seq<ActionView>) -> Seq<EvalWarningView>
    decreases actions.len(),
{
    if actions.len() == 0 {
        Seq::empty()
    } else {
        let earlier = notify_warnings(actions.drop_last());
        match actions.last() {
            ActionView::Notify(method, _) => if is_known_method(method) {
                earlier
            } else {
                earlier.push(EvalWarningView::UnknownNotifyMethod(method))
            },
            _ => earlier,
        }
    }
}

proof fn lemma_resolve_without_vacation<F: Filterable>(
    actions: Seq<ActionView>,
    msg: &F,
    replied: Seq<bool>,
    senders: Seq<Seq<char>>,
)
    requires
        forall|k: int| 0 <= k < actions.len() ==> !((#[trigger] actions[k]) is Vacation),
    ensures
        resolve_actions(actions, msg, replied, senders) == (
            actions.map_values(|a: ActionView| planned_view(a)),
            notify_warnings(actions),
        ),
    decreases actions.len(),
{
    if actions.len() == 0 {
        assert(actions.map_values(|a: ActionView| planned_view(a)) =~= Seq::<PlannedActionView>::empty());
    } else {
        let init = actions.drop_last();
        assert forall|k: int| 0 <= k < init.len() implies !((#[trigger] init[k]) is Vacation) by {
            assert(init[k] == actions[k]);
        }
        lemma_resolve_without_vacation(init, msg, replied.drop_last(), senders.drop_last());
        assert(actions[actions.len() - 1] == actions.last());
        assert(init.map_values(|a: ActionView| planned_view(a)).push(planned_view(actions.last()))
            =~= actions.map_values(|a: ActionView| planned_view(a)));
    }
}

/// When no action is a vacation, resolving the actions is exact, whatever
/// the hook: the plan is the actions translated in order (as
/// `build_action_plan` translates them) and the warnings are those of the
/// notify actions whose method scheme is unknown, in order.
pub proof fn law_resolution_without_vacation<F: Filterable>(
    actions: Seq<ActionView>,
    msg: &F,
    hook: Option<&dyn SeenBefore>,
    out: Resolution,
)
    requires
        forall|k: int| 0 <= k < actions.len() ==> !((#[trigger] actions[k]) is Vacation),
        resolution_admits(actions, msg, hook, out),
    ensures
        out == (actions.map_values(|a: ActionView| planned_view(a)), notify_warnings(actions)),
{
    let (replied, senders) = choose|replied: Seq<bool>, senders: Seq<Seq<char>>|
        replied.len() == actions.len() && senders.len() == actions.len()
        && (hook is None ==> forall|k: int| 0 <= k < replied.len() ==> !#[trigger] replied[k])
        && (forall|k: int| 0 <= k < actions.len() && (#[trigger] actions[k]) is Vacation ==>
            sender_admitted(msg, senders[k]) && hook_answers(hook, senders[k], replied[k]))
        && #[trigger] resolve_actions(actions, msg, replied, senders) == out;
    lemma_resolve_without_vacation(actions, msg, replied, senders);
}

/// Whatever rule a run found first (regex verdicts included), the outcome
/// is in closed form when that rule has no vacation action: its id, its
/// actions translated in order, and one unknown-method warning for each of
/// its notify actions whose scheme is unknown, in order.
pub proof fn law_found_rule_without_vacation<F: Filterable>(
    rules: Seq<FilterRule>,
    msg: &F,
    hook: Option<&dyn SeenBefore>,
    out: EvalOutcomeView,
)
    requires
        outcome_admits(rules, msg, hook, out),
    ensures
        exists|i: int| #[trigger] first_match_at(rules, msg, i) && (i < rules.len()
            && (forall|j: int| 0 <= j < rules[i].actions@.len() ==> !((#[trigger] rules[i].actions@[j])@ is Vacation))
            ==> {
            &&& out.rule_id == Some(rules[i].id@)
            &&& out.plan == actions_view(rules[i].actions@).map_values(|a: ActionView| planned_view(a))
            &&& out.warnings == notify_warnings(actions_view(rules[i].actions@))
        }),
{
    let i = choose|i: int| #[trigger] first_match_at(rules, msg, i) && if i == rules.len() {
        out.rule_id is None && out.plan.len() == 0 && out.warnings.len() == 0
    } else {
        out.rule_id == Some(rules[i].id@) && resolution_admits(
            actions_view(rules[i].actions@),
            msg,
            hook,
            (out.plan, out.warnings),
        )
    };
    if i < rules.len() && (forall|j: int| 0 <= j < rules[i].actions@.len() ==> !((#[trigger] rules[i].actions@[j])@ is Vacation)) {
        let actions = actions_view(rules[i].actions@);
        assert forall|j: int| 0 <= j < actions.len() implies !((#[trigger] actions[j]) is Vacation) by {
            assert(actions[j] == rules[i].actions@[j]@);
        }
        law_resolution_without_vacation(actions, msg, hook, (out.plan, out.warnings));
    }
}

/// The plan outcome in closed form: when rule `k` is the first to match and
/// has no vacation action, the outcome carries rule `k`'s id, its actions
/// translated in order (the plan `build_action_plan` gives), and one
/// unknown-method warning for each of its notify actions whose scheme is
/// unknown, in order. The rules up to `k` must be decided by the message
/// alone (no regex condition, whose verdict depends on the clock, and
/// lookups the message answers in one way only).
pub proof fn law_plan_without_vacation<F: Filterable>(
    rules: Seq<FilterRule>,
    msg: &F,
    hook: Option<&dyn SeenBefore>,
    out: EvalOutcomeView,
    k: int,
)
    requires
        0 <= k < rules.len(),
        first_match_at(rules, msg, k),
        forall|j: int| 0 <= j <= k ==> !has_regex(#[trigger] rules[j]) && rule_lookups_determined(rules[j], msg),
        forall|j: int| 0 <= j < rules[k].actions@.len() ==> !((#[trigger] rules[k].actions@[j])@ is Vacation),
        outcome_admits(rules, msg, hook, out),
    ensures
        out.rule_id == Some(rules[k].id@),
        out.plan == actions_view(rules[k].actions@).map_values(|a: ActionView| planned_view(a)),
        out.warnings == notify_warnings(actions_view(rules[k].actions@)),
{
    let i = choose|i: int| #[trigger] first_match_at(rules, msg, i) && if i == rules.len() {
        out.rule_id is None && out.plan.len() == 0 && out.warnings.len() == 0
    } else {
        out.rule_id == Some(rules[i].id@) && resolution_admits(
            actions_view(rules[i].actions@),
            msg,
            hook,
            (out.plan, out.warnings),
        )
    };
    if i < k {
        law_rule_deterministic(rules[i], msg, true, false);
    } else if k < i {
        law_rule_deterministic(rules[k], msg, true, false);
    }
    assert(i == k);
    let actions = actions_view(rules[k].actions@);
    assert forall|j: int| 0 <= j < actions.len() implies !((#[trigger] actions[j]) is Vacation) by {
        assert(actions[j] == rules[k].actions@[j]@);
    }
    law_resolution_without_vacation(actions, msg, hook, (out.plan, out.warnings));
}

/// An address that holds an `@` is its localpart, the last `@`, and its
/// domain, and the domain holds no `@`; without an `@`, the localpart is the
/// whole address and the domain is empty.
pub proof fn law_address_parts(address: Seq<char>)
    ensures
        address.contains('@') ==> address_part_spec(address, AddressPart::Localpart) + seq!['@']
            + address_part_spec(address, AddressPart::Domain) == address,
        address.contains('@') ==> !address_part_spec(address, AddressPart::Domain).contains('@'),
        !address.contains('@') ==> address_part_spec(address, AddressPart::Localpart) == address,
        !address.contains('@') ==> address_part_spec(address, AddressPart::Domain).len() == 0,
        address_part_spec(address, AddressPart::All) == address,
{
    lemma_last_index_of(address, '@');
    let at = last_index_of(address, '@');
    if address.contains('@') {
        let k = choose|k: int| 0 <= k < address.len() && address[k] == '@';
        assert(at >= k);
        assert(address.subrange(0, at) + seq!['@'] + address.subrange(at + 1, address.len() as int) =~= address);
        let d = address.subrange(at + 1, address.len() as int);
        assert forall|m: int| 0 <= m < d.len() implies d[m] != '@' by {
            assert(d[m] == address[at + 1 + m]);
        }
    } else if at >= 0 {
        assert(address[at] == '@');
    }
}

proof fn lemma_count_in_group(s: Seq<FilterRule>, x: FilterRule)
    ensures
        s.to_multiset().count(x) == with_priority(s, x.priority).to_multiset().count(x),
    decreases s.len(),
{
    broadcast use vstd::seq_lib::group_to_multiset_ensures;

    let pred = priority_is(x.priority);
    if s.len() == 0 {
        assert(s.filter(pred) =~= s) by {
            reveal(Seq::filter);
        }
    } else {
        let t = s.drop_last();
        let y = s.last();
        assert(t.push(y) =~= s);
        lemma_count_in_group(t, x);
        t.lemma_filter_push(y, pred);
    }
}

/// Rule lists whose priority groups agree are permutations of each other;
/// with the contract of [`sort_rules_by_priority`], sorting only reorders
/// the rules.
pub proof fn law_same_groups_same_rules(a: Seq<FilterRule>, b: Seq<FilterRule>)
    requires
        forall|p: i32| #[trigger] with_priority(a, p) == with_priority(b, p),
    ensures
        a.to_multiset() == b.to_multiset(),
{
    assert forall|x: FilterRule| a.to_multiset().count(x) == b.to_multiset().count(x) by {
        lemma_count_in_group(a, x);
        lemma_count_in_group(b, x);
        assert(with_priority(a, x.priority) == with_priority(b, x.priority));
    }
    assert(a.to_multiset() =~= b.to_multiset());
}

} // verus!
