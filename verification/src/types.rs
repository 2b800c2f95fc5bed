//! Filter rule types: conditions, operators, actions, and the composite rule
//! structure. These types are domain-only (no storage dependencies) so they
//! can be evaluated synchronously against any [`Filterable`] message.
use vstd::prelude::*;

use crate::error::FilterError;
use crate::pattern::{regex_compiles, CompiledRegex};
use crate::text::{
    ascii_lower_seq, chars_eq, chars_of, eq_ignore_ascii_case, eq_ignore_ascii_case_spec,
    find_char, first_index_of, lemma_first_index_of, to_ascii_lowercase,
};

verus! {

/// The view of an optional string slice.
pub open spec fn opt_str_view(o: Option<&str>) -> Option<Seq<char>> {
    match o {
        Some(s) => Some(s@),
        None => None,
    }
}

/// The view of an optional owned string.
pub open spec fn opt_string_view(o: Option<String>) -> Option<Seq<char>> {
    match o {
        Some(s) => Some(s@),
        None => None,
    }
}

/// The value of the first header whose name equals `name` ignoring ASCII
/// case, if any.
pub open spec fn lookup_header(headers: Seq<(Seq<char>, Seq<char>)>, name: Seq<char>) -> Option<Seq<char>>
    decreases headers.len(),
{
    if headers.len() == 0 {
        None
    } else if eq_ignore_ascii_case_spec(headers[0].0, name) {
        Some(headers[0].1)
    } else {
        lookup_header(headers.drop_first(), name)
    }
}

/// The fields a filter engine needs from a message.
///
/// Implement this trait for your message type (or use the provided
/// [`MailEnvelope`] struct) to evaluate rules against it. The `*_view`
/// functions describe the fields every message has, and each of those
/// methods returns what its view says; `header`, `envelope_from` and
/// `envelope_to` answer `None` unless a type provides them, and a type that
/// does states in its own contract what it answers.
pub trait Filterable {
    /// First From address email (empty if absent). Implementors describe
    /// their message through these views; a view left at its default reads
    /// as an empty field.
    open spec fn from_view(&self) -> Seq<char> {
        Seq::empty()
    }

    /// First To address email (empty if absent).
    open spec fn to_view(&self) -> Seq<char> {
        Seq::empty()
    }

    /// First Cc address email (empty if absent).
    open spec fn cc_view(&self) -> Seq<char> {
        Seq::empty()
    }

    /// Subject header (empty if absent).
    open spec fn subject_view(&self) -> Seq<char> {
        Seq::empty()
    }

    /// Body text (empty if absent).
    open spec fn body_view(&self) -> Seq<char> {
        Seq::empty()
    }

    /// Whether the message has attachments.
    open spec fn has_attachment_view(&self) -> bool {
        false
    }

    /// First From address email (empty if absent).
    fn from(&self) -> (r: &str)
        ensures
            r@ == self.from_view(),
    ;

    /// First To address email (empty if absent).
    fn to(&self) -> (r: &str)
        ensures
            r@ == self.to_view(),
    ;

    /// First Cc address email (empty if absent).
    fn cc(&self) -> (r: &str)
        ensures
            r@ == self.cc_view(),
    ;

    /// Subject header (empty if absent).
    fn subject(&self) -> (r: &str)
        ensures
            r@ == self.subject_view(),
    ;

    /// Body text (empty if absent).
    fn body(&self) -> (r: &str)
        ensures
            r@ == self.body_view(),
    ;

    /// Whether the message has attachments.
    fn has_attachment(&self) -> (r: bool)
        ensures
            r == self.has_attachment_view(),
    ;

    /// Value of a raw header by name (case-insensitive lookup), if present.
    /// Message types without headers keep the provided method, which
    /// answers `None`; a type that supplies headers states in its own
    /// contract what it answers.
    fn header(&self, name: &str) -> (r: Option<&str>)
        default_ensures
            r is None,
    {
        let _ = name;
        None
    }

    /// Envelope sender (SMTP `MAIL FROM`), when the caller supplies envelope
    /// data; `None` otherwise (the provided method), and envelope conditions
    /// then evaluate as non-matching.
    fn envelope_from(&self) -> (r: Option<&str>)
        default_ensures
            r is None,
    {
        None
    }

    /// Envelope recipient (SMTP `RCPT TO`), when the caller supplies envelope
    /// data; `None` otherwise (the provided method).
    fn envelope_to(&self) -> (r: Option<&str>)
        default_ensures
            r is None,
    {
        None
    }
}

/// A complete filter rule: conditions + actions + metadata.
#[derive(Clone, Debug)]
pub struct FilterRule {
    /// Stable identifier.
    pub id: String,
    /// Human-readable name.
    pub name: String,
    /// Whether the rule is active.
    pub enabled: bool,
    /// Lower = evaluated first.
    pub priority: i32,
    /// Conditions to evaluate.
    pub conditions: Vec<Condition>,
    /// How conditions are combined.
    pub condition_logic: LogicOp,
    /// Actions to execute when the rule matches.
    pub actions: Vec<Action>,
}

/// A regex condition whose pattern does not compile.
pub open spec fn is_bad_regex(c: Condition) -> bool {
    c.operator is Regex && !regex_compiles(c.value@)
}

/// Why a vacation configuration is rejected, if it is.
pub open spec fn vacation_problem(v: Vacation) -> Option<Seq<char>> {
    if v.message@.len() == 0 {
        Some("message must not be empty"@)
    } else if v.days == 0 {
        Some("days must be at least 1"@)
    } else {
        None
    }
}

/// A vacation action that its own validation rejects.
pub open spec fn is_bad_vacation(a: Action) -> bool {
    a matches Action::Vacation(v) && vacation_problem(v) is Some
}

/// Everything `FilterRule::validate` checks holds.
pub open spec fn rule_is_valid(rule: FilterRule) -> bool {
    &&& rule.id@.len() > 0
    &&& rule.name@.len() > 0
    &&& forall|i: int| 0 <= i < rule.conditions@.len() ==> !is_bad_regex(#[trigger] rule.conditions@[i])
    &&& forall|j: int| 0 <= j < rule.actions@.len() ==> !is_bad_vacation(#[trigger] rule.actions@[j])
}

impl FilterRule {
    /// Validate the rule: non-empty `id` and `name`, every
    /// [`Operator::Regex`] condition must compile, and every vacation action
    /// must pass [`Vacation::validate`]. The first problem found, in that
    /// order, is reported.
    pub fn validate(&self) -> (r: Result<(), FilterError>)
        ensures
            r is Ok <==> rule_is_valid(*self),
            r matches Err(FilterError::EmptyRuleId) <==> self.id@.len() == 0,
            r matches Err(FilterError::EmptyRuleName) <==> self.id@.len() > 0 && self.name@.len() == 0,
            r matches Err(FilterError::InvalidRegex { .. }) <==> self.id@.len() > 0 && self.name@.len() > 0
                && exists|i: int| 0 <= i < self.conditions@.len() && #[trigger] is_bad_regex(self.conditions@[i]),
            r matches Err(FilterError::InvalidRegex { pattern, .. }) ==> exists|i: int|
                0 <= i < self.conditions@.len() && #[trigger] is_bad_regex(self.conditions@[i])
                    && pattern@ == self.conditions@[i].value@
                    && forall|k: int| 0 <= k < i ==> !is_bad_regex(#[trigger] self.conditions@[k]),
            r matches Err(FilterError::InvalidVacation { .. }) <==> self.id@.len() > 0 && self.name@.len() > 0
                && (forall|i: int| 0 <= i < self.conditions@.len() ==> !is_bad_regex(#[trigger] self.conditions@[i]))
                && exists|j: int| 0 <= j < self.actions@.len() && #[trigger] is_bad_vacation(self.actions@[j]),
            r matches Err(FilterError::InvalidVacation { reason }) ==> exists|j: int|
                0 <= j < self.actions@.len() && #[trigger] is_bad_vacation(self.actions@[j])
                    && vacation_problem(self.actions@[j]->Vacation_0) == Some(reason@)
                    && forall|k: int| 0 <= k < j ==> !is_bad_vacation(#[trigger] self.actions@[k]),
    {
        if self.id.as_str().is_empty() {
            return Err(FilterError::EmptyRuleId);
        }
        if self.name.as_str().is_empty() {
            return Err(FilterError::EmptyRuleName);
        }
        let mut i: usize = 0;
        while i < self.conditions.len()
            invariant
                self.id@.len() > 0,
                self.name@.len() > 0,
                i <= self.conditions@.len(),
                forall|k: int| 0 <= k < i ==> !is_bad_regex(#[trigger] self.conditions@[k]),
            decreases self.conditions.len() - i,
        {
            let condition = &self.conditions[i];
            if matches!(condition.operator, Operator::Regex) {
                match CompiledRegex::compile(condition.value.as_str()) {
                    Ok(_) => {},
                    Err(source) => {
                        assert(is_bad_regex(self.conditions@[i as int]));
                        return Err(FilterError::InvalidRegex { pattern: condition.value.clone(), source });
                    },
                }
            }
            i += 1;
        }
        let mut j: usize = 0;
        while j < self.actions.len()
            invariant
                self.id@.len() > 0,
                self.name@.len() > 0,
                j <= self.actions@.len(),
                forall|k: int| 0 <= k < self.conditions@.len() ==> !is_bad_regex(#[trigger] self.conditions@[k]),
                forall|k: int| 0 <= k < j ==> !is_bad_vacation(#[trigger] self.actions@[k]),
            decreases self.actions.len() - j,
        {
            if let Action::Vacation(vacation) = &self.actions[j] {
                match vacation.validate() {
                    Ok(()) => {},
                    Err(e) => {
                        assert(is_bad_vacation(self.actions@[j as int]));
                        return Err(e);
                    },
                }
            }
            j += 1;
        }
        Ok(())
    }
}

/// Boolean combinator for conditions.
#[derive(Clone, Copy, Debug, PartialEq, Eq)]
pub enum LogicOp {
    /// All conditions must match.
    And,
    /// Any condition may match.
    Or,
}

/// A single condition clause.
#[derive(Clone, Debug)]
pub struct Condition {
    /// Which message field to test.
    pub field: ConditionField,
    /// How to test it.
    pub operator: Operator,
    /// The comparison value (interpreted per operator).
    pub value: String,
    /// When `true`, invert the result.
    pub negate: bool,
}

/// Message fields that conditions can target.
#[derive(Clone, Debug, PartialEq, Eq)]
pub enum ConditionField {
    /// First From address email.
    From,
    /// First To address email.
    To,
    /// Any Cc address email.
    Cc,
    /// Subject header.
    Subject,
    /// Message body text.
    Body,
    /// A specific header by name.
    Header(String),
    /// Whether the message has attachments.
    HasAttachment,
    /// An SMTP envelope value (RFC 5228 §5.1 `envelope` test); when the
    /// message supplies no envelope data, the test evaluates as non-matching.
    Envelope {
        /// Which envelope value to test.
        part: EnvelopePart,
        /// Which portion of the address to compare.
        address_part: AddressPart,
    },
}

/// Which SMTP envelope value an envelope test reads (RFC 5228 §5.1).
#[derive(Clone, Copy, Debug, PartialEq, Eq)]
pub enum EnvelopePart {
    /// Envelope sender (`MAIL FROM`), i.e. the return path.
    From,
    /// Envelope recipient (`RCPT TO`).
    To,
}

/// Which portion of an address an envelope test compares
/// (RFC 5228 §5.1 `:all` / `:localpart` / `:domain`).
#[derive(Clone, Copy, Debug, PartialEq, Eq)]
pub enum AddressPart {
    /// The whole address (default in RFC 5228).
    All,
    /// Everything before the last `@` (the whole value when there is no `@`).
    Localpart,
    /// Everything after the last `@` (empty when there is no `@`).
    Domain,
}

/// Comparison operators.
#[derive(Clone, Debug, PartialEq, Eq)]
pub enum Operator {
    /// Substring match (case-insensitive).
    Contains,
    /// Exact match (case-insensitive).
    Equals,
    /// Glob-style match (`*` and `?`).
    Matches,
    /// Regular expression (bounded: 100 ms post-check).
    Regex,
    /// Field exists and is non-empty.
    Exists,
    /// Numeric equality per the `i;ascii-numeric` comparator (RFC 4790):
    /// both sides must be all-ASCII-digit strings (leading zeros ignored,
    /// empty equals only empty); any non-numeric value never matches.
    NumericEquals,
}

/// An IMAP message flag.
#[derive(Debug, PartialEq, Eq)]
pub enum Flag {
    /// `\Seen` — message has been read.
    Seen,
    /// `\Answered` — message has been replied to.
    Answered,
    /// `\Flagged` — message is flagged/starred.
    Flagged,
    /// `\Deleted` — message is marked for deletion.
    Deleted,
    /// `\Draft` — message is a draft.
    Draft,
    /// A non-system keyword flag.
    Keyword(String),
}

/// A flag as a mathematical value: keywords by their characters.
pub enum FlagView {
    Seen,
    Answered,
    Flagged,
    Deleted,
    Draft,
    Keyword(Seq<char>),
}

impl View for Flag {
    type V = FlagView;

    open spec fn view(&self) -> FlagView {
        match self {
            Flag::Seen => FlagView::Seen,
            Flag::Answered => FlagView::Answered,
            Flag::Flagged => FlagView::Flagged,
            Flag::Deleted => FlagView::Deleted,
            Flag::Draft => FlagView::Draft,
            Flag::Keyword(k) => FlagView::Keyword(k@),
        }
    }
}

/// The views of a sequence of flags.
pub open spec fn flags_view(flags: Seq<Flag>) -> Seq<FlagView> {
    flags.map_values(|f: Flag| f@)
}

impl Clone for Flag {
    fn clone(&self) -> (r: Flag)
        ensures
            r == *self,
    {
        match self {
            Flag::Seen => Flag::Seen,
            Flag::Answered => Flag::Answered,
            Flag::Flagged => Flag::Flagged,
            Flag::Deleted => Flag::Deleted,
            Flag::Draft => Flag::Draft,
            Flag::Keyword(k) => Flag::Keyword(k.clone()),
        }
    }
}

/// A copy of a list of flags.
pub fn copy_flags(flags: &Vec<Flag>) -> (r: Vec<Flag>)
    ensures
        r@ == flags@,
{
    let mut out: Vec<Flag> = Vec::new();
    let mut i: usize = 0;
    while i < flags.len()
        invariant
            i <= flags@.len(),
            out@ == flags@.subrange(0, i as int),
        decreases flags.len() - i,
    {
        out.push(flags[i].clone());
        i += 1;
    }
    out
}

/// Whether two flags are the same flag (keywords compare exactly).
pub fn flag_eq(a: &Flag, b: &Flag) -> (r: bool)
    ensures
        r == (a@ == b@),
{
    match (a, b) {
        (Flag::Seen, Flag::Seen) => true,
        (Flag::Answered, Flag::Answered) => true,
        (Flag::Flagged, Flag::Flagged) => true,
        (Flag::Deleted, Flag::Deleted) => true,
        (Flag::Draft, Flag::Draft) => true,
        (Flag::Keyword(x), Flag::Keyword(y)) => crate::text::str_eq(x.as_str(), y.as_str()),
        _ => false,
    }
}

/// An action to perform when a rule matches.
#[derive(Debug, PartialEq, Eq)]
pub enum Action {
    /// Move the message to a folder (`fileinto`).
    MoveTo(String),
    /// Copy the message to a folder (original stays).
    CopyTo(String),
    /// Add flags to the message (RFC 5232 `addflag`).
    Flag(Vec<Flag>),
    /// Remove flags from the message (RFC 5232 `removeflag`).
    Unflag(Vec<Flag>),
    /// Replace the message's flag set (RFC 5232 `setflag`).
    SetFlags(Vec<Flag>),
    /// Mark as read (adds `\Seen`).
    MarkRead,
    /// Delete the message (move to trash, `discard` — host decides).
    Delete,
    /// Forward to an email address (`redirect`).
    Forward(String),
    /// Send an automated reply, at most once per sender per period
    /// (`vacation`, RFC 5230); sending is the host's responsibility.
    Vacation(Vacation),
    /// Emit a notification to an external method (`notify`, RFC 5436);
    /// delivery is the host's responsibility.
    Notify(Notify),
}

/// A vacation configuration as a mathematical value.
pub struct VacationView {
    pub days: u32,
    pub subject: Option<Seq<char>>,
    pub from: Option<Seq<char>>,
    pub message: Seq<char>,
}

impl View for Vacation {
    type V = VacationView;

    open spec fn view(&self) -> VacationView {
        VacationView {
            days: self.days,
            subject: opt_string_view(self.subject),
            from: opt_string_view(self.from),
            message: self.message@,
        }
    }
}

/// An action as a mathematical value.
pub enum ActionView {
    MoveTo(Seq<char>),
    CopyTo(Seq<char>),
    Flag(Seq<FlagView>),
    Unflag(Seq<FlagView>),
    SetFlags(Seq<FlagView>),
    MarkRead,
    Delete,
    Forward(Seq<char>),
    Vacation(VacationView),
    Notify(Seq<char>, Seq<char>),
}

impl View for Action {
    type V = ActionView;

    open spec fn view(&self) -> ActionView {
        match self {
            Action::MoveTo(to) => ActionView::MoveTo(to@),
            Action::CopyTo(to) => ActionView::CopyTo(to@),
            Action::Flag(flags) => ActionView::Flag(flags_view(flags@)),
            Action::Unflag(flags) => ActionView::Unflag(flags_view(flags@)),
            Action::SetFlags(flags) => ActionView::SetFlags(flags_view(flags@)),
            Action::MarkRead => ActionView::MarkRead,
            Action::Delete => ActionView::Delete,
            Action::Forward(to) => ActionView::Forward(to@),
            Action::Vacation(v) => ActionView::Vacation(v@),
            Action::Notify(n) => ActionView::Notify(n.method@, n.message@),
        }
    }
}

/// The views of a sequence of actions.
pub open spec fn actions_view(actions: Seq<Action>) -> Seq<ActionView> {
    actions.map_values(|a: Action| a@)
}

impl Clone for Action {
    fn clone(&self) -> (r: Action)
        ensures
            r@ == self@,
    {
        match self {
            Action::MoveTo(to) => Action::MoveTo(to.clone()),
            Action::CopyTo(to) => Action::CopyTo(to.clone()),
            Action::Flag(flags) => Action::Flag(copy_flags(flags)),
            Action::Unflag(flags) => Action::Unflag(copy_flags(flags)),
            Action::SetFlags(flags) => Action::SetFlags(copy_flags(flags)),
            Action::MarkRead => Action::MarkRead,
            Action::Delete => Action::Delete,
            Action::Forward(to) => Action::Forward(to.clone()),
            Action::Vacation(v) => Action::Vacation(v.clone()),
            Action::Notify(n) => Action::Notify(n.clone()),
        }
    }
}

/// A copy of a list of actions.
pub fn copy_actions(actions: &Vec<Action>) -> (r: Vec<Action>)
    ensures
        actions_view(r@) == actions_view(actions@),
{
    let mut out: Vec<Action> = Vec::new();
    let mut i: usize = 0;
    while i < actions.len()
        invariant
            i <= actions@.len(),
            out@.len() == i,
            forall|k: int| 0 <= k < i ==> (#[trigger] out@[k])@ == actions@[k]@,
        decreases actions.len() - i,
    {
        out.push(actions[i].clone());
        i += 1;
    }
    assert(actions_view(out@) =~= actions_view(actions@));
    out
}

/// Configuration for the `vacation` action (RFC 5230). `days` defaults to 7
/// (the RFC default for an omitted `:days`).
#[derive(Debug, Default, PartialEq, Eq)]
pub struct Vacation {
    /// Minimum days between responses to the same sender (`:days`).
    pub days: u32,
    /// Override subject for the reply (`:subject`); when unset the engine
    /// uses `Re: <original subject>`.
    pub subject: Option<String>,
    /// Override From address for the reply (`:from`).
    pub from: Option<String>,
    /// Response body text (the positional `message` argument).
    pub message: String,
}

/// A copy of an optional string.
pub fn copy_opt_string(s: &Option<String>) -> (r: Option<String>)
    ensures
        r == *s,
{
    match s {
        Some(x) => Some(x.clone()),
        None => None,
    }
}

impl Clone for Vacation {
    fn clone(&self) -> (r: Vacation)
        ensures
            r == *self,
    {
        Vacation {
            days: self.days,
            subject: copy_opt_string(&self.subject),
            from: copy_opt_string(&self.from),
            message: self.message.clone(),
        }
    }
}

impl Vacation {
    /// Create a vacation action with the RFC-default 7-day respond period.
    pub fn new(message: &str) -> (r: Vacation)
        ensures
            r.days == 7,
            r.subject is None,
            r.from is None,
            r.message@ == message@,
    {
        Vacation { days: 7, subject: None, from: None, message: message.to_owned() }
    }

    /// Set the minimum respond period in days (`:days`).
    pub fn with_days(self, days: u32) -> (r: Vacation)
        ensures
            r == (Vacation { days, ..self }),
    {
        Vacation { days, ..self }
    }

    /// Set the reply subject override (`:subject`).
    pub fn with_subject(self, subject: &str) -> (r: Vacation)
        ensures
            r.days == self.days,
            r.from == self.from,
            r.message == self.message,
            opt_string_view(r.subject) == Some(subject@),
    {
        Vacation { subject: Some(subject.to_owned()), ..self }
    }

    /// Set the reply From address override (`:from`).
    pub fn with_from(self, from: &str) -> (r: Vacation)
        ensures
            r.days == self.days,
            r.subject == self.subject,
            r.message == self.message,
            opt_string_view(r.from) == Some(from@),
    {
        Vacation { from: Some(from.to_owned()), ..self }
    }

    /// Validate the configuration: non-empty message and `days >= 1`.
    pub fn validate(&self) -> (r: Result<(), FilterError>)
        ensures
            vacation_problem(*self) is None ==> r is Ok,
            vacation_problem(*self) matches Some(why) ==> r matches Err(FilterError::InvalidVacation { reason }) && reason@ == why,
    {
        if self.message.as_str().is_empty() {
            return Err(FilterError::InvalidVacation { reason: "message must not be empty".to_owned() });
        }
        if self.days == 0 {
            return Err(FilterError::InvalidVacation { reason: "days must be at least 1".to_owned() });
        }
        Ok(())
    }
}

/// Configuration for the `notify` action (RFC 5436). `method` is a URI such
/// as `"mailto:ops@example.com"`; any string is accepted, and evaluation warns
/// when the URI scheme is not a recognized notification scheme.
#[derive(Debug, Default, PartialEq, Eq)]
pub struct Notify {
    /// Notification method URI (`:method`).
    pub method: String,
    /// Human-readable message body (`:message`); empty means unset.
    pub message: String,
}

impl Clone for Notify {
    fn clone(&self) -> (r: Notify)
        ensures
            r == *self,
    {
        Notify { method: self.method.clone(), message: self.message.clone() }
    }
}

/// URI schemes recognized as notification methods during evaluation.
/// `mailto` is defined by RFC 5436; the others are common extension
/// schemes. Unknown schemes still parse — evaluation just warns.
pub const KNOWN_NOTIFY_SCHEMES: [&'static str; 6] = ["mailto", "xmpp", "sms", "tel", "http", "https"];

/// The scheme of a method URI: the ASCII-lowercased text before the first
/// `:`, absent when there is no `:` or nothing before it.
pub open spec fn scheme_of(method: Seq<char>) -> Option<Seq<char>> {
    let i = first_index_of(method, ':');
    if i <= 0 {
        None
    } else {
        Some(ascii_lower_seq(method.subrange(0, i)))
    }
}

/// `s` is one of [`KNOWN_NOTIFY_SCHEMES`].
pub open spec fn is_known_scheme(s: Seq<char>) -> bool {
    exists|i: int| 0 <= i < 6 && s == (#[trigger] KNOWN_NOTIFY_SCHEMES@[i])@
}

/// A notification method URI whose scheme is recognized.
pub open spec fn is_known_method(method: Seq<char>) -> bool {
    scheme_of(method) matches Some(s) && is_known_scheme(s)
}

impl Notify {
    /// Create a notification action for the given method URI.
    pub fn new(method: &str, message: &str) -> (r: Notify)
        ensures
            r.method@ == method@,
            r.message@ == message@,
    {
        Notify { method: method.to_owned(), message: message.to_owned() }
    }

    /// The URI scheme of `method` (lowercased), i.e. the portion before the
    /// first `:`, or `None` when the method has no scheme.
    pub fn scheme(&self) -> (r: Option<String>)
        ensures
            opt_string_view(r) == scheme_of(self.method@),
    {
        let chars = chars_of(self.method.as_str());
        match find_char(&chars, ':') {
            None => None,
            Some(i) => {
                proof { lemma_first_index_of(chars@, ':'); }
                if i == 0 {
                    None
                } else {
                    let prefix = self.method.as_str().substring_char(0, i);
                    Some(to_ascii_lowercase(prefix))
                }
            },
        }
    }

    /// Whether the method URI uses a scheme in [`KNOWN_NOTIFY_SCHEMES`].
    pub fn has_known_scheme(&self) -> (r: bool)
        ensures
            r == is_known_method(self.method@),
    {
        match self.scheme() {
            None => false,
            Some(s) => {
                let sv = chars_of(s.as_str());
                let known = KNOWN_NOTIFY_SCHEMES;
                let mut i: usize = 0;
                while i < 6
                    invariant
                        i <= 6,
                        known@ == KNOWN_NOTIFY_SCHEMES@,
                        sv@ == s@,
                        scheme_of(self.method@) == Some(s@),
                        forall|k: int| 0 <= k < i ==> s@ != (#[trigger] KNOWN_NOTIFY_SCHEMES@[k])@,
                    decreases 6 - i,
                {
                    let kv = chars_of(known[i]);
                    if chars_eq(&sv, &kv) {
                        assert(s@ == (KNOWN_NOTIFY_SCHEMES@[i as int])@);
                        assert(is_known_scheme(s@));
                        return true;
                    }
                    i += 1;
                }
                false
            },
        }
    }
}

/// Extracted field values from a message for condition evaluation: a
/// concrete [`Filterable`] over borrowed strings.
#[derive(Clone, Debug, Default)]
pub struct FieldValues<'a> {
    /// From address email (first).
    pub from: &'a str,
    /// To address email (first).
    pub to: &'a str,
    /// Cc address email (first, if any).
    pub cc: &'a str,
    /// Subject.
    pub subject: &'a str,
    /// Body text.
    pub body: &'a str,
    /// Whether the message has attachments.
    pub has_attachment: bool,
    /// Raw headers (name -> value) for `Header` conditions.
    pub headers: Vec<(&'a str, &'a str)>,
    /// Envelope sender (SMTP `MAIL FROM`); `None` when the caller has no
    /// envelope data.
    pub envelope_from: Option<&'a str>,
    /// Envelope recipient (SMTP `RCPT TO`); `None` when the caller has no
    /// envelope data.
    pub envelope_to: Option<&'a str>,
}

/// The views of borrowed header pairs.
pub open spec fn str_headers_view(h: Seq<(&str, &str)>) -> Seq<(Seq<char>, Seq<char>)> {
    h.map_values(|p: (&str, &str)| (p.0@, p.1@))
}

/// The views of owned header pairs.
pub open spec fn string_headers_view(h: Seq<(String, String)>) -> Seq<(Seq<char>, Seq<char>)> {
    h.map_values(|p: (String, String)| (p.0@, p.1@))
}

proof fn lemma_lookup_skip(h: Seq<(Seq<char>, Seq<char>)>, name: Seq<char>, i: int)
    requires
        0 <= i < h.len(),
        !eq_ignore_ascii_case_spec(h[i].0, name),
    ensures
        lookup_header(h.subrange(i, h.len() as int), name) == lookup_header(h.subrange(i + 1, h.len() as int), name),
{
    assert(h.subrange(i, h.len() as int).drop_first() =~= h.subrange(i + 1, h.len() as int));
}

impl<'a> Filterable for FieldValues<'a> {
    open spec fn from_view(&self) -> Seq<char> {
        self.from@
    }

    open spec fn to_view(&self) -> Seq<char> {
        self.to@
    }

    open spec fn cc_view(&self) -> Seq<char> {
        self.cc@
    }

    open spec fn subject_view(&self) -> Seq<char> {
        self.subject@
    }

    open spec fn body_view(&self) -> Seq<char> {
        self.body@
    }

    open spec fn has_attachment_view(&self) -> bool {
        self.has_attachment
    }

    fn from(&self) -> (r: &str) {
        self.from
    }

    fn to(&self) -> (r: &str) {
        self.to
    }

    fn cc(&self) -> (r: &str) {
        self.cc
    }

    fn subject(&self) -> (r: &str) {
        self.subject
    }

    fn body(&self) -> (r: &str) {
        self.body
    }

    fn has_attachment(&self) -> (r: bool) {
        self.has_attachment
    }

    fn header(&self, name: &str) -> (r: Option<&str>)
        ensures
            opt_str_view(r) == lookup_header(str_headers_view(self.headers@), name@),
    {
        let ghost hv = str_headers_view(self.headers@);
        let mut i: usize = 0;
        assert(hv.subrange(0, hv.len() as int) =~= hv);
        while i < self.headers.len()
            invariant
                hv == str_headers_view(self.headers@),
                i <= self.headers@.len(),
                lookup_header(hv, name@) == lookup_header(hv.subrange(i as int, hv.len() as int), name@),
            decreases self.headers.len() - i,
        {
            let (k, v) = self.headers[i];
            if eq_ignore_ascii_case(k, name) {
                assert(hv.subrange(i as int, hv.len() as int)[0] == hv[i as int]);
                return Some(v);
            }
            proof { lemma_lookup_skip(hv, name@, i as int); }
            i += 1;
        }
        None
    }

    fn envelope_from(&self) -> (r: Option<&str>)
        ensures
            opt_str_view(r) == opt_str_view(self.envelope_from),
    {
        self.envelope_from
    }

    fn envelope_to(&self) -> (r: Option<&str>)
        ensures
            opt_str_view(r) == opt_str_view(self.envelope_to),
    {
        self.envelope_to
    }
}

/// A simple envelope of the fields a filter engine needs: a ready-made
/// [`Filterable`] over owned strings.
#[derive(Clone, Debug, Default)]
pub struct MailEnvelope {
    /// First From address email.
    pub from: String,
    /// First To address email.
    pub to: String,
    /// First Cc address email.
    pub cc: String,
    /// Subject header.
    pub subject: String,
    /// Body text.
    pub body: String,
    /// Whether the message has attachments.
    pub has_attachment: bool,
    /// Raw headers (name -> value) for `Header` conditions.
    pub headers: Vec<(String, String)>,
    /// Envelope sender (SMTP `MAIL FROM`); `None` when not supplied.
    pub envelope_from: Option<String>,
    /// Envelope recipient (SMTP `RCPT TO`); `None` when not supplied.
    pub envelope_to: Option<String>,
}

/// An optional owned string, borrowed.
fn opt_as_str(o: &Option<String>) -> (r: Option<&str>)
    ensures
        opt_str_view(r) == opt_string_view(*o),
{
    match o {
        Some(s) => Some(s.as_str()),
        None => None,
    }
}

impl Filterable for MailEnvelope {
    open spec fn from_view(&self) -> Seq<char> {
        self.from@
    }

    open spec fn to_view(&self) -> Seq<char> {
        self.to@
    }

    open spec fn cc_view(&self) -> Seq<char> {
        self.cc@
    }

    open spec fn subject_view(&self) -> Seq<char> {
        self.subject@
    }

    open spec fn body_view(&self) -> Seq<char> {
        self.body@
    }

    open spec fn has_attachment_view(&self) -> bool {
        self.has_attachment
    }

    fn from(&self) -> (r: &str) {
        self.from.as_str()
    }

    fn to(&self) -> (r: &str) {
        self.to.as_str()
    }

    fn cc(&self) -> (r: &str) {
        self.cc.as_str()
    }

    fn subject(&self) -> (r: &str) {
        self.subject.as_str()
    }

    fn body(&self) -> (r: &str) {
        self.body.as_str()
    }

    fn has_attachment(&self) -> (r: bool) {
        self.has_attachment
    }

    fn header(&self, name: &str) -> (r: Option<&str>)
        ensures
            opt_str_view(r) == lookup_header(string_headers_view(self.headers@), name@),
    {
        let ghost hv = string_headers_view(self.headers@);
        let mut i: usize = 0;
        assert(hv.subrange(0, hv.len() as int) =~= hv);
        while i < self.headers.len()
            invariant
                hv == string_headers_view(self.headers@),
                i <= self.headers@.len(),
                lookup_header(hv, name@) == lookup_header(hv.subrange(i as int, hv.len() as int), name@),
            decreases self.headers.len() - i,
        {
            let entry = &self.headers[i];
            if eq_ignore_ascii_case(entry.0.as_str(), name) {
                assert(hv.subrange(i as int, hv.len() as int)[0] == hv[i as int]);
                return Some(entry.1.as_str());
            }
            proof { lemma_lookup_skip(hv, name@, i as int); }
            i += 1;
        }
        None
    }

    fn envelope_from(&self) -> (r: Option<&str>)
        ensures
            opt_str_view(r) == opt_string_view(self.envelope_from),
    {
        opt_as_str(&self.envelope_from)
    }

    fn envelope_to(&self) -> (r: Option<&str>)
        ensures
            opt_str_view(r) == opt_string_view(self.envelope_to),
    {
        opt_as_str(&self.envelope_to)
    }
}

/// The scheme of a method URI is its text before the FIRST `:`,
/// ASCII-lowercased, whatever follows (ports, further colons): for
/// `p + ":" + rest` with `p` non-empty and free of `:`, the scheme is `p`
/// lowercased. A method without `:`, or starting with one, has no scheme.
pub proof fn law_scheme_before_first_colon(p: Seq<char>, rest: Seq<char>)
    ensures
        p.len() > 0 && !p.contains(':') ==> scheme_of(p + seq![':'] + rest) == Some(ascii_lower_seq(p)),
        !p.contains(':') ==> scheme_of(p) is None,
        scheme_of(seq![':'] + rest) is None,
{
    let m = p + seq![':'] + rest;
    lemma_first_index_of(m, ':');
    let i = first_index_of(m, ':');
    assert(m[p.len() as int] == ':');
    if p.len() > 0 && !p.contains(':') {
        if i < p.len() {
            assert(m[i] == p[i]);
        }
        assert(i == p.len());
        assert(m.subrange(0, i) =~= p);
    }
    lemma_first_index_of(p, ':');
    if !p.contains(':') && first_index_of(p, ':') >= 0 {
        assert(p[first_index_of(p, ':')] == ':');
    }
    let c = seq![':'] + rest;
    lemma_first_index_of(c, ':');
    assert(c[0] == ':');
}

/// A header lookup answers with the value of the first header whose name
/// equals the asked name ignoring ASCII case, and answers nothing when no
/// header name does.
pub proof fn law_lookup_header_first_match(h: Seq<(Seq<char>, Seq<char>)>, name: Seq<char>)
    ensures
        lookup_header(h, name) matches Some(v) ==> exists|i: int| #![trigger h[i]]
            0 <= i < h.len() && h[i].1 == v && eq_ignore_ascii_case_spec(h[i].0, name)
            && forall|j: int| 0 <= j < i ==> !eq_ignore_ascii_case_spec(#[trigger] h[j].0, name),
        lookup_header(h, name) is None ==> forall|i: int| 0 <= i < h.len() ==> !eq_ignore_ascii_case_spec(#[trigger] h[i].0, name),
    decreases h.len(),
{
    if h.len() > 0 {
        let t = h.drop_first();
        law_lookup_header_first_match(t, name);
        if eq_ignore_ascii_case_spec(h[0].0, name) {
            assert(h[0].1 == h[0].1);
        } else {
            if lookup_header(t, name) is Some {
                let v = lookup_header(t, name)->0;
                let i = choose|i: int| #![trigger t[i]]
                    0 <= i < t.len() && t[i].1 == v && eq_ignore_ascii_case_spec(t[i].0, name)
                    && forall|j: int| 0 <= j < i ==> !eq_ignore_ascii_case_spec(#[trigger] t[j].0, name);
                assert(h[i + 1] == t[i]);
                assert forall|j: int| 0 <= j < i + 1 implies !eq_ignore_ascii_case_spec(#[trigger] h[j].0, name) by {
                    if j > 0 {
                        assert(h[j] == t[j - 1]);
                    }
                }
            } else {
                assert forall|i: int| 0 <= i < h.len() implies !eq_ignore_ascii_case_spec(#[trigger] h[i].0, name) by {
                    if i > 0 {
                        assert(h[i] == t[i - 1]);
                    }
                }
            }
        }
    }
}

/// A vacation configuration is accepted exactly when its message is
/// non-empty and its period is at least one day; an empty message is the
/// reason reported first, whatever the period.
pub proof fn law_vacation_validity(v: Vacation)
    ensures
        vacation_problem(v) is None <==> v.message@.len() > 0 && v.days >= 1,
        v.message@.len() == 0 ==> vacation_problem(v) == Some("message must not be empty"@),
        v.message@.len() > 0 && v.days == 0 ==> vacation_problem(v) == Some("days must be at least 1"@),
{
}

} // verus!
