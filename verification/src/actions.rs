//! Action definitions and execution helpers. Actions are value types that
//! describe what to do; the host application translates them into its own
//! mail operations. Evaluation and planning here are pure.
use std::time::Instant;

use vstd::prelude::*;
use vstd::hash_map::StringHashMap;
use vstd::rwlock::{RwLock, RwLockPredicate};

use crate::clock::{duration_as_secs, instant_elapsed, instant_now};

use crate::eval::{first_match, first_match_at, RegexCache};
use crate::types::{
    FilterRule, Filterable, copy_actions, copy_flags, copy_opt_string, flag_eq, flags_view, opt_string_view,
    actions_view, Action, ActionView, Flag, FlagView,
};

verus! {

/// The result of evaluating a rule: which message and what actions to apply.
#[derive(Clone, Debug)]
pub struct FilterMatch {
    /// The matched message identifier.
    pub message_id: String,
    /// Actions to execute, in rule order.
    pub actions: Vec<Action>,
}

impl FilterMatch {
    /// Create a match for the given message id.
    pub fn new(message_id: &str, actions: Vec<Action>) -> (r: FilterMatch)
        ensures
            r.message_id@ == message_id@,
            r.actions == actions,
    {
        FilterMatch { message_id: message_id.to_owned(), actions }
    }
}

/// A single planned action ready for execution by the host application.
#[derive(Clone, Debug, PartialEq, Eq)]
pub enum PlannedAction {
    /// Move to folder.
    Move {
        /// Destination folder.
        to: String,
    },
    /// Copy to folder.
    Copy {
        /// Destination folder.
        to: String,
    },
    /// Add flags (RFC 5232 `addflag`).
    AddFlags {
        /// Flags to add.
        flags: Vec<Flag>,
    },
    /// Remove flags (RFC 5232 `removeflag`).
    RemoveFlags {
        /// Flags to remove.
        flags: Vec<Flag>,
    },
    /// Replace the flag set (RFC 5232 `setflag`).
    SetFlags {
        /// The new flag set.
        flags: Vec<Flag>,
    },
    /// Mark as read.
    MarkRead,
    /// Delete (move to trash).
    Delete,
    /// Forward to address.
    Forward {
        /// Recipient email.
        to: String,
    },
    /// Send an automated reply (RFC 5230 `vacation`). The engine evaluates
    /// the reply — dedup, routing, default subject — but never sends it.
    Vacation(VacationReply),
    /// Emit a notification to an external method (RFC 5436 `notify`).
    Notify {
        /// Notification method URI (e.g. `mailto:ops@example.com`).
        method: String,
        /// Message body (`:message`).
        message: String,
    },
}

/// An evaluated automated reply (RFC 5230 `vacation`), ready for the host's
/// SMTP layer.
#[derive(Clone, Debug, PartialEq, Eq)]
pub struct VacationReply {
    /// Address to reply to: the envelope sender, falling back to the header
    /// From address; empty when built by [`build_action_plan`].
    pub to: String,
    /// Minimum days before another reply to the same sender (`:days`).
    pub days: u32,
    /// Resolved subject: the configured `:subject`, else
    /// `Re: <original subject>`, else `Automated reply`.
    pub subject: String,
    /// Configured `:from` override, if any.
    pub from: Option<String>,
    /// Response body text.
    pub message: String,
}

/// A vacation reply as a mathematical value.
pub struct VacationReplyView {
    pub to: Seq<char>,
    pub days: u32,
    pub subject: Seq<char>,
    pub from: Option<Seq<char>>,
    pub message: Seq<char>,
}

impl View for VacationReply {
    type V = VacationReplyView;

    open spec fn view(&self) -> VacationReplyView {
        VacationReplyView {
            to: self.to@,
            days: self.days,
            subject: self.subject@,
            from: opt_string_view(self.from),
            message: self.message@,
        }
    }
}

/// A planned action as a mathematical value.
pub enum PlannedActionView {
    Move(Seq<char>),
    Copy(Seq<char>),
    AddFlags(Seq<FlagView>),
    RemoveFlags(Seq<FlagView>),
    SetFlags(Seq<FlagView>),
    MarkRead,
    Delete,
    Forward(Seq<char>),
    Vacation(VacationReplyView),
    Notify(Seq<char>, Seq<char>),
}

impl View for PlannedAction {
    type V = PlannedActionView;

    open spec fn view(&self) -> PlannedActionView {
        match self {
            PlannedAction::Move { to } => PlannedActionView::Move(to@),
            PlannedAction::Copy { to } => PlannedActionView::Copy(to@),
            PlannedAction::AddFlags { flags } => PlannedActionView::AddFlags(flags_view(flags@)),
            PlannedAction::RemoveFlags { flags } => PlannedActionView::RemoveFlags(flags_view(flags@)),
            PlannedAction::SetFlags { flags } => PlannedActionView::SetFlags(flags_view(flags@)),
            PlannedAction::MarkRead => PlannedActionView::MarkRead,
            PlannedAction::Delete => PlannedActionView::Delete,
            PlannedAction::Forward { to } => PlannedActionView::Forward(to@),
            PlannedAction::Vacation(reply) => PlannedActionView::Vacation(reply@),
            PlannedAction::Notify { method, message } => PlannedActionView::Notify(method@, message@),
        }
    }
}

/// The views of a sequence of planned actions.
pub open spec fn plan_view(plan: Seq<PlannedAction>) -> Seq<PlannedActionView> {
    plan.map_values(|p: PlannedAction| p@)
}

/// The pure translation of an action: vacation replies get an empty
/// recipient and the configured subject (empty when unset), since both are
/// resolved only at evaluation time.
pub open spec fn planned_view(a: ActionView) -> PlannedActionView {
    match a {
        ActionView::MoveTo(to) => PlannedActionView::Move(to),
        ActionView::CopyTo(to) => PlannedActionView::Copy(to),
        ActionView::Flag(flags) => PlannedActionView::AddFlags(flags),
        ActionView::Unflag(flags) => PlannedActionView::RemoveFlags(flags),
        ActionView::SetFlags(flags) => PlannedActionView::SetFlags(flags),
        ActionView::MarkRead => PlannedActionView::MarkRead,
        ActionView::Delete => PlannedActionView::Delete,
        ActionView::Forward(to) => PlannedActionView::Forward(to),
        ActionView::Vacation(v) => PlannedActionView::Vacation(
            VacationReplyView {
                to: Seq::empty(),
                days: v.days,
                subject: match v.subject {
                    Some(s) => s,
                    None => Seq::empty(),
                },
                from: v.from,
                message: v.message,
            },
        ),
        ActionView::Notify(method, message) => PlannedActionView::Notify(method, message),
    }
}

impl PlannedAction {
    /// Translate one action into its planned form.
    pub fn from_action(action: &Action) -> (r: PlannedAction)
        ensures
            r@ == planned_view(action@),
    {
        match action {
            Action::MoveTo(to) => PlannedAction::Move { to: to.clone() },
            Action::CopyTo(to) => PlannedAction::Copy { to: to.clone() },
            Action::Flag(flags) => PlannedAction::AddFlags { flags: copy_flags(flags) },
            Action::Unflag(flags) => PlannedAction::RemoveFlags { flags: copy_flags(flags) },
            Action::SetFlags(flags) => PlannedAction::SetFlags { flags: copy_flags(flags) },
            Action::MarkRead => PlannedAction::MarkRead,
            Action::Delete => PlannedAction::Delete,
            Action::Forward(addr) => PlannedAction::Forward { to: addr.clone() },
            Action::Vacation(vacation) => {
                let subject = match &vacation.subject {
                    Some(s) => s.clone(),
                    None => String::new(),
                };
                PlannedAction::Vacation(
                    VacationReply {
                        to: String::new(),
                        days: vacation.days,
                        subject,
                        from: copy_opt_string(&vacation.from),
                        message: vacation.message.clone(),
                    },
                )
            },
            Action::Notify(notify) => PlannedAction::Notify {
                method: notify.method.clone(),
                message: notify.message.clone(),
            },
        }
    }
}

impl<'a> From<&'a Action> for PlannedAction {
    /// Translate one action into its planned form, as `from_action` does.
    fn from(action: &'a Action) -> (r: PlannedAction)
        ensures
            r@ == planned_view(action@),
    {
        PlannedAction::from_action(action)
    }
}

impl<'a> vstd::std_specs::convert::FromSpecImpl<&'a Action> for PlannedAction {
    /// The translation copies strings and flag lists, so it is stated over
    /// views (in the contract of `from`), not as one exact value.
    open spec fn obeys_from_spec() -> bool {
        false
    }

    /// A planned action whose view is the translation of the action's view.
    open spec fn from_spec(v: &'a Action) -> PlannedAction {
        choose|p: PlannedAction| p@ == planned_view(v@)
    }
}

/// Translate a list of actions into a plan that the host can execute.
pub fn build_action_plan(actions: &[Action]) -> (r: Vec<PlannedAction>)
    ensures
        plan_view(r@) == actions_view(actions@).map_values(|a: ActionView| planned_view(a)),
{
    let mut out: Vec<PlannedAction> = Vec::new();
    let mut i: usize = 0;
    while i < actions.len()
        invariant
            i <= actions@.len(),
            out@.len() == i,
            forall|k: int| 0 <= k < i ==> (#[trigger] out@[k])@ == planned_view(actions@[k]@),
        decreases actions.len() - i,
    {
        out.push(PlannedAction::from_action(&actions[i]));
        i += 1;
    }
    assert(plan_view(out@) =~= actions_view(actions@).map_values(|a: ActionView| planned_view(a)));
    out
}

/// `cur` with each flag of `add` appended unless already present, in order.
pub open spec fn add_flags_spec(cur: Seq<FlagView>, add: Seq<FlagView>) -> Seq<FlagView>
    decreases add.len(),
{
    if add.len() == 0 {
        cur
    } else {
        let before = add_flags_spec(cur, add.drop_last());
        if before.contains(add.last()) {
            before
        } else {
            before.push(add.last())
        }
    }
}

/// `cur` without any flag listed in `remove`.
pub open spec fn remove_flags_spec(cur: Seq<FlagView>, remove: Seq<FlagView>) -> Seq<FlagView> {
    cur.filter(|f: FlagView| !remove.contains(f))
}

/// The flag set after one planned action: add (without duplicates), remove,
/// replace, or unchanged for actions that are not flag mutations.
pub open spec fn flag_step(cur: Seq<FlagView>, p: PlannedActionView) -> Seq<FlagView> {
    match p {
        PlannedActionView::AddFlags(flags) => add_flags_spec(cur, flags),
        PlannedActionView::RemoveFlags(flags) => remove_flags_spec(cur, flags),
        PlannedActionView::SetFlags(flags) => flags,
        _ => cur,
    }
}

/// The flag set after folding a whole plan onto `cur`, in plan order.
pub open spec fn fold_flag_plan(cur: Seq<FlagView>, plan: Seq<PlannedActionView>) -> Seq<FlagView>
    decreases plan.len(),
{
    if plan.len() == 0 {
        cur
    } else {
        flag_step(fold_flag_plan(cur, plan.drop_last()), plan.last())
    }
}

fn contains_flag(v: &Vec<Flag>, f: &Flag) -> (r: bool)
    ensures
        r == flags_view(v@).contains(f@),
{
    let mut i: usize = 0;
    while i < v.len()
        invariant
            i <= v@.len(),
            forall|k: int| 0 <= k < i ==> (#[trigger] v@[k])@ != f@,
        decreases v.len() - i,
    {
        if flag_eq(&v[i], f) {
            assert(flags_view(v@)[i as int] == f@);
            return true;
        }
        i += 1;
    }
    assert forall|k: int| 0 <= k < flags_view(v@).len() implies #[trigger] flags_view(v@)[k] != f@ by {
        assert(flags_view(v@)[k] == v@[k]@);
    }
    false
}

fn add_flags(flags: &mut Vec<Flag>, add: &Vec<Flag>)
    ensures
        flags_view(final(flags)@) == add_flags_spec(flags_view(old(flags)@), flags_view(add@)),
{
    let ghost start = flags_view(flags@);
    let mut i: usize = 0;
    while i < add.len()
        invariant
            i <= add@.len(),
            flags_view(flags@) == add_flags_spec(start, flags_view(add@.subrange(0, i as int))),
        decreases add.len() - i,
    {
        let ghost before = flags_view(flags@);
        proof {
            assert(flags_view(add@.subrange(0, i + 1)).drop_last() =~= flags_view(add@.subrange(0, i as int)));
            assert(flags_view(add@.subrange(0, i + 1)).last() == add@[i as int]@);
        }
        if !contains_flag(flags, &add[i]) {
            flags.push(add[i].clone());
            assert(flags_view(flags@) =~= before.push(add@[i as int]@));
        }
        i += 1;
    }
    assert(add@.subrange(0, add@.len() as int) =~= add@);
}

fn remove_flags(flags: &Vec<Flag>, remove: &Vec<Flag>) -> (r: Vec<Flag>)
    ensures
        flags_view(r@) == remove_flags_spec(flags_view(flags@), flags_view(remove@)),
{
    let ghost pred = |f: FlagView| !flags_view(remove@).contains(f);
    let mut out: Vec<Flag> = Vec::new();
    let mut i: usize = 0;
    assert(flags_view(flags@.subrange(0, 0)).filter(pred) =~= Seq::<FlagView>::empty()) by {
        reveal(Seq::filter);
    }
    while i < flags.len()
        invariant
            i <= flags@.len(),
            flags_view(out@) == flags_view(flags@.subrange(0, i as int)).filter(pred),
            pred == (|f: FlagView| !flags_view(remove@).contains(f)),
        decreases flags.len() - i,
    {
        proof {
            assert(flags_view(flags@.subrange(0, i + 1)) =~= flags_view(flags@.subrange(0, i as int)).push(flags@[i as int]@));
            flags_view(flags@.subrange(0, i as int)).lemma_filter_push(flags@[i as int]@, pred);
        }
        let keep = !contains_flag(remove, &flags[i]);
        let ghost before = flags_view(out@);
        if keep {
            out.push(flags[i].clone());
            assert(flags_view(out@) =~= before.push(flags@[i as int]@));
        }
        i += 1;
    }
    assert(flags@.subrange(0, flags@.len() as int) =~= flags@);
    out
}

/// Fold flag mutations (RFC 5232 `addflag`/`removeflag`/`setflag`) onto a
/// current flag set, in plan order. `AddFlags` appends without duplicates,
/// `RemoveFlags` drops every listed flag, `SetFlags` replaces the set.
/// `MarkRead` is a host-level concern and is ignored here. Keywords compare
/// exactly (hosts may normalize case).
pub fn apply_flag_plan(current: &[Flag], plan: &[PlannedAction]) -> (r: Vec<Flag>)
    ensures
        flags_view(r@) == fold_flag_plan(flags_view(current@), plan_view(plan@)),
{
    let mut flags: Vec<Flag> = Vec::new();
    let mut c: usize = 0;
    while c < current.len()
        invariant
            c <= current@.len(),
            flags@ == current@.subrange(0, c as int),
        decreases current.len() - c,
    {
        flags.push(current[c].clone());
        c += 1;
    }
    assert(current@.subrange(0, current@.len() as int) =~= current@);
    let ghost start = flags_view(current@);
    let mut i: usize = 0;
    while i < plan.len()
        invariant
            i <= plan@.len(),
            flags_view(flags@) == fold_flag_plan(start, plan_view(plan@.subrange(0, i as int))),
        decreases plan.len() - i,
    {
        proof {
            assert(plan_view(plan@.subrange(0, i + 1)).drop_last() =~= plan_view(plan@.subrange(0, i as int)));
            assert(plan_view(plan@.subrange(0, i + 1)).last() == plan@[i as int]@);
        }
        match &plan[i] {
            PlannedAction::AddFlags { flags: add } => {
                add_flags(&mut flags, add);
            },
            PlannedAction::RemoveFlags { flags: remove } => {
                flags = remove_flags(&flags, remove);
            },
            PlannedAction::SetFlags { flags: set } => {
                flags = copy_flags(set);
            },
            _ => {},
        }
        i += 1;
    }
    assert(plan@.subrange(0, plan@.len() as int) =~= plan@);
    flags
}

/// Collect the actions from the first rule matching a message, in the given
/// rule order (use `sort_rules_by_priority` to order by priority first).
/// If no rule matches, returns an empty vec.
pub fn collect_matches<F: Filterable>(rules: &[FilterRule], msg: &F, regex_cache: &RegexCache) -> (r: Vec<Action>)
    ensures
        exists|i: int|
            #[trigger] first_match_at(rules@, msg, i) && actions_view(r@) == if i < rules@.len() {
                actions_view(rules@[i].actions@)
            } else {
                Seq::empty()
            },
{
    match first_match(rules, msg, regex_cache) {
        Some(i) => copy_actions(&rules[i].actions),
        None => {
            let none: Vec<Action> = Vec::new();
            assert(actions_view(none@) =~= Seq::<ActionView>::empty());
            none
        },
    }
}

/// Whether a reply recorded `elapsed_secs` seconds ago still falls within a
/// respond period of `days` days: the period is `days * 86400` seconds and
/// a reply exactly that old is due again.
pub fn within_respond_period(elapsed_secs: u64, days: u32) -> (r: bool)
    ensures
        r == (elapsed_secs < days * 86_400),
{
    elapsed_secs < (days as u64) * 86_400
}

/// Whether a reply whose record is `reading` seconds old (`None`: never
/// recorded) still falls within a respond period of `days` days.
pub open spec fn recorded_within(reading: Option<u64>, days: u32) -> bool {
    match reading {
        Some(secs) => secs < days * 86_400,
        None => false,
    }
}

/// The respond period decides alone: a sender never recorded is never
/// seen; a zero-day period sees no one; a record counts exactly while its
/// age is under `days * 86400` seconds, so a longer period keeps every record
/// a shorter one keeps, and a record at least a period old is due again.
pub proof fn law_respond_period(reading: Option<u64>, d1: u32, d2: u32)
    ensures
        !recorded_within(None, d1),
        !recorded_within(reading, 0),
        d1 <= d2 && recorded_within(reading, d1) ==> recorded_within(reading, d2),
        reading matches Some(secs) ==> (recorded_within(reading, d1) <==> secs < d1 * 86_400),
{
}

/// The tracker's lock holds any ledger: one recorded instant per sender is
/// what the map itself keeps.
pub struct AnyLedger;

impl RwLockPredicate<StringHashMap<Instant>> for AnyLedger {
    open spec fn inv(self, ledger: StringHashMap<Instant>) -> bool {
        true
    }
}

/// In-memory ledger for vacation respond-once-per-sender-per-period
/// semantics (RFC 5230). Record a reply when one is sent; query with
/// `seen_before` to decide whether another is due. Thread-safe; a closure
/// over it serves as an `EvalContext` dedup hook.
pub struct VacationTracker {
    entries: RwLock<StringHashMap<Instant>, AnyLedger>,
}

impl VacationTracker {
    /// Create an empty tracker.
    pub fn new() -> (r: VacationTracker) {
        VacationTracker { entries: RwLock::new(StringHashMap::new(), Ghost(AnyLedger)) }
    }

    /// The ledger's answer for `sender` over a period of `days` days, beside
    /// the age in whole seconds of the record it went by (`None` when the
    /// sender was never recorded): the answer is whether that record falls
    /// within the period.
    fn ledger_answer(&self, sender: &str, days: u32) -> (res: (bool, Ghost<Option<u64>>))
        ensures
            res.0 == recorded_within(res.1@, days),
    {
        let read = self.entries.acquire_read();
        let ledger = read.borrow();
        let res = match ledger.get(sender) {
            Some(recorded) => {
                let elapsed = instant_elapsed(recorded);
                let secs = duration_as_secs(&elapsed);
                (within_respond_period(secs, days), Ghost(Some(secs)))
            },
            None => (false, Ghost(None)),
        };
        read.release_read();
        res
    }

    /// Whether a reply was recorded for `sender` less than `days` days ago.
    /// A sender never recorded, or a zero-day period, is never seen.
    pub fn seen_before(&self, sender: &str, days: u32) -> (r: bool)
        ensures
            days == 0 ==> !r,
    {
        let (answer, _reading) = self.ledger_answer(sender, days);
        answer
    }

    /// Record that a reply was sent to `sender`, effective now.
    pub fn record(&self, sender: &str) {
        self.record_at(sender, instant_now());
    }

    /// Record a reply with an explicit timestamp (the injection point for
    /// tests and clock control); a later record for the same sender replaces
    /// the earlier one.
    pub fn record_at(&self, sender: &str, at: Instant) {
        let (mut ledger, write) = self.entries.acquire_write();
        ledger.insert(sender.to_owned(), at);
        write.release_write(ledger);
    }
}

impl Default for VacationTracker {
    /// An empty tracker.
    fn default() -> (r: VacationTracker) {
        VacationTracker::new()
    }
}

/// No flag occurs twice.
pub open spec fn no_duplicates(flags: Seq<FlagView>) -> bool {
    forall|i: int, j: int| 0 <= i < j < flags.len() ==> #[trigger] flags[i] != #[trigger] flags[j]
}

/// Folding a plan is folding its parts in turn: applying `p1` and then `p2`
/// gives the flags that applying `p1 + p2` gives.
pub proof fn law_flag_plan_composes(cur: Seq<FlagView>, p1: Seq<PlannedActionView>, p2: Seq<PlannedActionView>)
    ensures
        fold_flag_plan(cur, p1 + p2) == fold_flag_plan(fold_flag_plan(cur, p1), p2),
    decreases p2.len(),
{
    if p2.len() == 0 {
        assert(p1 + p2 =~= p1);
    } else {
        law_flag_plan_composes(cur, p1, p2.drop_last());
        assert((p1 + p2).drop_last() =~= p1 + p2.drop_last());
        assert((p1 + p2).last() == p2.last());
    }
}

/// Adding flags keeps the current flags in front, in order; afterwards a
/// flag is present exactly when it was present or added; and a flag set
/// without duplicates stays without duplicates.
pub proof fn law_add_flags(cur: Seq<FlagView>, add: Seq<FlagView>)
    ensures
        add_flags_spec(cur, add).len() >= cur.len(),
        add_flags_spec(cur, add).subrange(0, cur.len() as int) == cur,
        forall|f: FlagView| #[trigger] add_flags_spec(cur, add).contains(f) <==> cur.contains(f) || add.contains(f),
        no_duplicates(cur) ==> no_duplicates(add_flags_spec(cur, add)),
    decreases add.len(),
{
    if add.len() == 0 {
        assert(cur.subrange(0, cur.len() as int) =~= cur);
    } else {
        let rest = add.drop_last();
        let x = add.last();
        law_add_flags(cur, rest);
        let before = add_flags_spec(cur, rest);
        let after = add_flags_spec(cur, add);
        assert forall|f: FlagView| add.contains(f) <==> rest.contains(f) || f == x by {
            if add.contains(f) {
                let k = choose|k: int| 0 <= k < add.len() && add[k] == f;
                if k < add.len() - 1 {
                    assert(rest[k] == f);
                }
            }
            if rest.contains(f) {
                let k = choose|k: int| 0 <= k < rest.len() && rest[k] == f;
                assert(add[k] == f);
            }
            if f == x {
                assert(add[add.len() - 1] == f);
            }
        }
        if !before.contains(x) {
            assert(after == before.push(x));
            assert(after.subrange(0, cur.len() as int) =~= before.subrange(0, cur.len() as int));
            assert forall|f: FlagView| #[trigger] after.contains(f) <==> before.contains(f) || f == x by {
                if after.contains(f) {
                    let k = choose|k: int| 0 <= k < after.len() && after[k] == f;
                    if k < before.len() {
                        assert(before[k] == f);
                    }
                }
                if before.contains(f) {
                    let k = choose|k: int| 0 <= k < before.len() && before[k] == f;
                    assert(after[k] == f);
                }
                if f == x {
                    assert(after[before.len() as int] == f);
                }
            }
            if no_duplicates(cur) {
                assert forall|i: int, j: int| 0 <= i < j < after.len() implies #[trigger] after[i] != #[trigger] after[j] by {
                    if j == before.len() {
                        assert(after[i] == before[i]);
                    } else {
                        assert(after[i] == before[i] && after[j] == before[j]);
                    }
                }
            }
        }
    }
}

/// After removing flags, a flag is present exactly when it was present and
/// is not listed for removal.
pub proof fn law_remove_flags(cur: Seq<FlagView>, remove: Seq<FlagView>)
    ensures
        forall|f: FlagView| #[trigger] remove_flags_spec(cur, remove).contains(f) <==> cur.contains(f) && !remove.contains(f),
{
    let pred = |f: FlagView| !remove.contains(f);
    assert forall|f: FlagView| #[trigger] remove_flags_spec(cur, remove).contains(f) <==> cur.contains(f) && !remove.contains(f) by {
        let out = cur.filter(pred);
        if out.contains(f) {
            cur.lemma_filter_contains_rev(pred, f);
            let k = choose|k: int| 0 <= k < out.len() && out[k] == f;
            cur.lemma_filter_pred(pred, k);
        }
        if cur.contains(f) && !remove.contains(f) {
            let k = choose|k: int| 0 <= k < cur.len() && cur[k] == f;
            cur.lemma_filter_contains(pred, k);
        }
    }
}

proof fn lemma_remove_keeps_no_duplicates(cur: Seq<FlagView>, remove: Seq<FlagView>)
    requires
        no_duplicates(cur),
    ensures
        no_duplicates(remove_flags_spec(cur, remove)),
    decreases cur.len(),
{
    let pred = |f: FlagView| !remove.contains(f);
    if cur.len() == 0 {
        assert(cur.filter(pred) =~= cur) by {
            reveal(Seq::filter);
        }
    } else {
        let rest = cur.drop_last();
        let x = cur.last();
        assert(rest.push(x) =~= cur);
        assert(no_duplicates(rest)) by {
            assert forall|i: int, j: int| 0 <= i < j < rest.len() implies #[trigger] rest[i] != #[trigger] rest[j] by {
                assert(rest[i] == cur[i] && rest[j] == cur[j]);
            }
        }
        lemma_remove_keeps_no_duplicates(rest, remove);
        rest.lemma_filter_push(x, pred);
        let before = rest.filter(pred);
        if pred(x) {
            assert(!before.contains(x)) by {
                if before.contains(x) {
                    rest.lemma_filter_contains_rev(pred, x);
                    let k = choose|k: int| 0 <= k < rest.len() && rest[k] == x;
                    assert(cur[k] == cur[cur.len() - 1]);
                }
            }
            let after = before.push(x);
            assert forall|i: int, j: int| 0 <= i < j < after.len() implies #[trigger] after[i] != #[trigger] after[j] by {
                if j == before.len() {
                    assert(after[i] == before[i]);
                    assert(before.contains(before[i]));
                } else {
                    assert(after[i] == before[i] && after[j] == before[j]);
                }
            }
        }
    }
}

/// Every `SetFlags` in the plan names each flag once.
pub open spec fn plan_sets_without_duplicates(plan: Seq<PlannedActionView>) -> bool {
    forall|k: int| 0 <= k < plan.len() && (#[trigger] plan[k]) is SetFlags ==> no_duplicates(plan[k]->SetFlags_0)
}

/// Folding a plan onto a flag set without duplicates gives a flag set without
/// duplicates, as long as every `SetFlags` in the plan names each flag once.
pub proof fn law_flag_plan_no_duplicates(cur: Seq<FlagView>, plan: Seq<PlannedActionView>)
    requires
        no_duplicates(cur),
        plan_sets_without_duplicates(plan),
    ensures
        no_duplicates(fold_flag_plan(cur, plan)),
    decreases plan.len(),
{
    if plan.len() > 0 {
        let rest = plan.drop_last();
        assert(plan_sets_without_duplicates(rest)) by {
            assert forall|k: int| 0 <= k < rest.len() && (#[trigger] rest[k]) is SetFlags implies no_duplicates(rest[k]->SetFlags_0) by {
                assert(rest[k] == plan[k]);
            }
        }
        law_flag_plan_no_duplicates(cur, rest);
        let before = fold_flag_plan(cur, rest);
        match plan.last() {
            PlannedActionView::AddFlags(add) => {
                law_add_flags(before, add);
            },
            PlannedActionView::RemoveFlags(remove) => {
                lemma_remove_keeps_no_duplicates(before, remove);
            },
            PlannedActionView::SetFlags(set) => {
                assert(plan[plan.len() - 1] is SetFlags);
            },
            _ => {},
        }
    }
}

/// Setting flags replaces the whole set, and actions that are not flag
/// mutations leave the set unchanged.
pub proof fn law_flag_step_set_and_ignore(cur: Seq<FlagView>, p: PlannedActionView)
    ensures
        p matches PlannedActionView::SetFlags(flags) ==> flag_step(cur, p) == flags,
        !(p is AddFlags || p is RemoveFlags || p is SetFlags) ==> flag_step(cur, p) == cur,
{
}

/// Each planned step does to a flag set what its name says, whatever the set
/// (the empty one included): adding keeps the current flags in front and
/// afterwards a flag is present exactly when it was present or added;
/// removing leaves a flag present exactly when it was present and is not
/// listed. A one-step plan folds to that step.
pub proof fn law_flag_step_effects(cur: Seq<FlagView>, p: PlannedActionView)
    ensures
        fold_flag_plan(cur, seq![p]) == flag_step(cur, p),
        p matches PlannedActionView::AddFlags(add) ==> {
            &&& flag_step(cur, p).subrange(0, cur.len() as int) == cur
            &&& forall|f: FlagView| #[trigger] flag_step(cur, p).contains(f) <==> cur.contains(f) || add.contains(f)
        },
        p matches PlannedActionView::RemoveFlags(remove) ==> forall|f: FlagView|
            #[trigger] flag_step(cur, p).contains(f) <==> cur.contains(f) && !remove.contains(f),
{
    let one = seq![p];
    assert(one.drop_last() =~= Seq::<PlannedActionView>::empty());
    assert(one.last() == p);
    assert(fold_flag_plan(cur, one.drop_last()) == cur);
    match p {
        PlannedActionView::AddFlags(add) => {
            law_add_flags(cur, add);
        },
        PlannedActionView::RemoveFlags(remove) => {
            law_remove_flags(cur, remove);
        },
        _ => {},
    }
}

/// Translating an action into its planned form keeps its payload: folders,
/// flag lists, forward address and notify method and message carry over to
/// the matching planned step; a vacation becomes a reply with no recipient
/// yet, the action's days, sender and message, and its configured subject
/// (empty only when none is configured).
pub proof fn law_translation_keeps_payload(a: ActionView)
    ensures
        a matches ActionView::Vacation(v) ==> planned_view(a) matches PlannedActionView::Vacation(reply) && {
            &&& reply.to.len() == 0
            &&& reply.days == v.days
            &&& reply.from == v.from
            &&& reply.message == v.message
            &&& v.subject matches Some(s) ==> reply.subject == s
            &&& v.subject is None ==> reply.subject.len() == 0
        },
        a matches ActionView::MoveTo(t) ==> planned_view(a) == PlannedActionView::Move(t),
        a matches ActionView::CopyTo(t) ==> planned_view(a) == PlannedActionView::Copy(t),
        a matches ActionView::Flag(f) ==> planned_view(a) == PlannedActionView::AddFlags(f),
        a matches ActionView::Unflag(f) ==> planned_view(a) == PlannedActionView::RemoveFlags(f),
        a matches ActionView::SetFlags(f) ==> planned_view(a) == PlannedActionView::SetFlags(f),
        a is MarkRead ==> planned_view(a) is MarkRead,
        a is Delete ==> planned_view(a) is Delete,
        a matches ActionView::Forward(t) ==> planned_view(a) == PlannedActionView::Forward(t),
        a matches ActionView::Notify(m, body) ==> planned_view(a) == PlannedActionView::Notify(m, body),
{
}

} // verus!
