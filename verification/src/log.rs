//! Entries of the session log.

use vstd::prelude::*;

verus! {

/// One entry of the session log: what was done, or what was refused.
#[derive(Debug, PartialEq)]
pub enum LogType {
    Info(String),
    Error(String),
}

/// The mathematical value of a [`LogType`].
pub enum LogView {
    Info(Seq<char>),
    Error(Seq<char>),
}

impl View for LogType {
    type V = LogView;

    open spec fn view(&self) -> LogView {
        match self {
            LogType::Info(text) => LogView::Info(text@),
            LogType::Error(text) => LogView::Error(text@),
        }
    }
}

impl LogView {
    /// The text of the entry, without its kind.
    pub open spec fn text(self) -> Seq<char> {
        match self {
            LogView::Info(text) => text,
            LogView::Error(text) => text,
        }
    }
}

impl Clone for LogType {
    fn clone(&self) -> (r: LogType)
        ensures
            r == *self,
    {
        match self {
            LogType::Info(text) => LogType::Info(text.clone()),
            LogType::Error(text) => LogType::Error(text.clone()),
        }
    }
}

impl LogType {
    /// The text of the entry, without its kind.
    pub fn message(&self) -> (r: String)
        ensures
            r@ == self@.text(),
    {
        match self {
            LogType::Info(text) => text.clone(),
            LogType::Error(text) => text.clone(),
        }
    }
}

} // verus!
