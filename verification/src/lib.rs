//! Rule-based mail filtering engine: conditions, operators, actions and
//! first-match evaluation into execution-ready plans, with every step
//! specified and proved.
pub mod glob;
pub mod numeric;
pub mod pattern;
pub mod text;
pub mod types;
pub mod actions;
pub mod clock;
pub mod eval;
pub mod error;

pub use actions::{
    apply_flag_plan, collect_matches, FilterMatch, PlannedAction, VacationReply, VacationTracker,
};
pub use error::FilterError;
pub use eval::{
    ascii_numeric_eq, evaluate_plan, extract_address_part, EvalContext, EvalOutcome, EvalWarning,
    RegexCache, SeenBefore,
};
pub use types::{
    Action, AddressPart, Condition, ConditionField, EnvelopePart, FieldValues, FilterRule,
    Filterable, Flag, LogicOp, MailEnvelope, Notify, Operator, Vacation, KNOWN_NOTIFY_SCHEMES,
};
