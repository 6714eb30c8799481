//! One turn of a session: a line of input is classified, dispatched and
//! logged.

use crate::command::{classified, new_product_fields, stock_or_sell_fields, Action, ActionView};
use crate::dispatch::{Outcome, OutcomeView, RejectReason};
use crate::inventory::{Catalog, InventoryApp};
use crate::log::{LogType, LogView};
use vstd::prelude::*;
use vstd::string::StringExecFns;

verus! {

/// What one turn leaves for the caller: the outcome to show, and the entry
/// to append to the session log, if the turn makes one.
#[derive(Debug, PartialEq)]
pub struct Turn {
    pub outcome: Outcome,
    pub entry: Option<LogType>,
}

impl RejectReason {
    /// The reason in words.
    pub open spec fn words(self) -> Seq<char> {
        match self {
            RejectReason::NotAProduct => "not a product"@,
            RejectReason::AlreadyExists => "already exists"@,
            RejectReason::AlreadyRetired => "already retired"@,
            RejectReason::AlreadyActive => "already active"@,
            RejectReason::NotAnAction => "not an action"@,
        }
    }

    /// The reason in words.
    pub fn message(&self) -> (r: String)
        ensures
            r@ == self.words(),
    {
        match self {
            RejectReason::NotAProduct => "not a product".to_owned(),
            RejectReason::AlreadyExists => "already exists".to_owned(),
            RejectReason::AlreadyRetired => "already retired".to_owned(),
            RejectReason::AlreadyActive => "already active".to_owned(),
            RejectReason::NotAnAction => "not an action".to_owned(),
        }
    }
}

impl ActionView {
    /// The SKU that the action names, if it names one.
    pub open spec fn sku(self) -> Option<Seq<char>> {
        match self {
            ActionView::StockOrSell { sku, .. } => Some(sku),
            ActionView::CreateProduct { sku, .. } => Some(sku),
            ActionView::Inspect { sku } => Some(sku),
            ActionView::SetRetired { sku, .. } => Some(sku),
            ActionView::UnreadQuantity { sku, .. } => Some(sku),
            ActionView::MenuCommand { .. } => None,
            ActionView::Rejected { .. } => None,
        }
    }
}

impl Action {
    /// The SKU that the action names, if it names one.
    pub fn sku(&self) -> (r: Option<String>)
        ensures
            r.deep_view() == self@.sku(),
    {
        match self {
            Action::StockOrSell { sku, .. } => Some(sku.clone()),
            Action::CreateProduct { sku, .. } => Some(sku.clone()),
            Action::Inspect { sku } => Some(sku.clone()),
            Action::SetRetired { sku, .. } => Some(sku.clone()),
            Action::UnreadQuantity { sku, .. } => Some(sku.clone()),
            Action::MenuCommand { .. } => None,
            Action::Rejected { .. } => None,
        }
    }
}

/// The text of the entry for a line that was applied: the day in square
/// brackets, then the line.
pub open spec fn info_line(today: Seq<char>, line: Seq<char>) -> Seq<char> {
    "["@ + today + "] "@ + line
}

/// The text of the entry for a line that was refused: the day in square
/// brackets, the subject in quotes, and the reason.
pub open spec fn error_line(today: Seq<char>, subject: Seq<char>, reason: RejectReason) -> Seq<
    char,
> {
    "["@ + today + "] '"@ + subject + "' "@ + (if reason == RejectReason::AlreadyExists {
        Seq::<char>::empty()
    } else {
        "is "@
    }) + reason.words()
}

/// The subject of a refusal: the whole line where the line is no action,
/// else the SKU that the action names.
pub open spec fn subject_of(line: Seq<char>, sku: Option<Seq<char>>, reason: RejectReason) -> Seq<
    char,
> {
    match sku {
        Some(sku) => if reason == RejectReason::NotAnAction {
            line
        } else {
            sku
        },
        None => line,
    }
}

/// The log entry of a turn: `Info` for a line that changed the products,
/// `Error` for a line that was refused, none for a line that only read.
pub open spec fn entry_of(
    today: Seq<char>,
    line: Seq<char>,
    sku: Option<Seq<char>>,
    outcome: OutcomeView,
) -> Option<LogView> {
    match outcome {
        OutcomeView::Applied { description } => {
            if description.mutates() {
                Some(LogView::Info(info_line(today, line)))
            } else {
                None
            }
        },
        OutcomeView::Rejected { reason } => Some(
            LogView::Error(
                error_line(today, subject_of(line, sku, reason), reason),
            ),
        ),
    }
}

/// The mathematical value of an entry that may be missing.
pub open spec fn entry_view(entry: Option<LogType>) -> Option<LogView> {
    match entry {
        Some(entry) => Some(entry@),
        None => None,
    }
}

/// Writes the log entry of a turn.
pub fn log_entry(today: &str, line: &str, sku: Option<String>, outcome: &Outcome) -> (r: Option<
    LogType,
>)
    ensures
        entry_view(r) == entry_of(today@, line@, sku.deep_view(), outcome@),
{
    let mut text = "[".to_owned();
    text.append(today);
    match outcome {
        Outcome::Applied { description: _ } => {
            if outcome.needs_save() {
                text.append("] ");
                text.append(line);
                Some(LogType::Info(text))
            } else {
                None
            }
        },
        Outcome::Rejected { reason } => {
            text.append("] '");
            match &sku {
                Some(sku) => match reason {
                    RejectReason::NotAnAction => text.append(line),
                    _ => text.append(sku.as_str()),
                },
                None => text.append(line),
            }
            text.append("' ");
            match reason {
                RejectReason::AlreadyExists => {
                    assert(text@ + Seq::<char>::empty() =~= text@);
                },
                _ => text.append("is "),
            }
            text.append(reason.message().as_str());
            Some(LogType::Error(text))
        },
    }
}

/// A line of the form `SKU*N` that names a SKU the catalog lacks is refused
/// as naming no product, whatever number it writes, in range or not: the
/// catalog and its counters stay as they were, no save is asked for, and the
/// `Error` entry names the SKU.
pub proof fn lemma_unknown_sku_is_refused(
    catalog: Catalog,
    text: Seq<char>,
    fields: Seq<Seq<char>>,
    today: Seq<char>,
)
    requires
        stock_or_sell_fields(text) == Some(fields),
        !catalog.products.contains_key(fields[0]),
    ensures
        ({
            let action = classified(text);
            let (next, outcome) = catalog.dispatched(action, today);
            &&& next == catalog
            &&& outcome == (OutcomeView::Rejected { reason: RejectReason::NotAProduct })
            &&& !outcome.asks_save()
            &&& entry_of(today, text, action.sku(), outcome) == Some(
                LogView::Error(error_line(today, fields[0], RejectReason::NotAProduct)),
            )
        }),
{
    assert(fields.len() == seq![1usize, 2usize].len());
}

/// A line of the form `Q+[SKU](Name)D` that names a SKU the catalog has is
/// refused as existing already, whatever its digit: the catalog and its
/// counters stay as they were, no save is asked for, and the `Error` entry
/// names the SKU.
pub proof fn lemma_known_sku_is_not_created(
    catalog: Catalog,
    text: Seq<char>,
    fields: Seq<Seq<char>>,
    today: Seq<char>,
)
    requires
        stock_or_sell_fields(text) is None,
        new_product_fields(text) == Some(fields),
        catalog.products.contains_key(fields[0]),
    ensures
        ({
            let action = classified(text);
            let (next, outcome) = catalog.dispatched(action, today);
            &&& next == catalog
            &&& outcome == (OutcomeView::Rejected { reason: RejectReason::AlreadyExists })
            &&& !outcome.asks_save()
            &&& entry_of(today, text, action.sku(), outcome) == Some(
                LogView::Error(error_line(today, fields[0], RejectReason::AlreadyExists)),
            )
        }),
{
    assert(fields.len() == seq![1usize, 2usize, 3usize].len());
}

impl InventoryApp {
    /// Takes one turn: classifies the trimmed line `line`, applies the action
    /// to the catalog on the day `today`, and writes the log entry.
    ///
    /// Returns `None`, and leaves the catalog as it was, where the action
    /// would take a stock, a sold count or a weekly counter out of `i32`.
    pub fn take_turn(&mut self, line: &str, today: &str) -> (r: Option<Turn>)
        requires
            old(self).wf(),
        ensures
            final(self).wf(),
            match r {
                Some(turn) => {
                    let after = old(self)@.dispatched(classified(line@), today@);
                    &&& old(self)@.admits(classified(line@))
                    &&& final(self)@ == after.0
                    &&& turn.outcome@ == after.1
                    &&& entry_view(turn.entry) == entry_of(
                        today@,
                        line@,
                        classified(line@).sku(),
                        after.1,
                    )
                },
                None => !old(self)@.admits(classified(line@)) && *final(self) == *old(self),
            },
    {
        let action = self.classify(line);
        if !self.admits(&action) {
            return None;
        }
        let sku = action.sku();
        let outcome = self.dispatch(action, today);
        let entry = log_entry(today, line, sku, &outcome);
        Some(Turn { outcome, entry })
    }
}

} // verus!
