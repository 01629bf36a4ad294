//! Log records handed to the display collaborator. The engine only ever
//! appends records, in the order the operations ran; it never reads them
//! back.

use vstd::prelude::*;

verus! {

/// The three kinds of record the engine emits.
#[derive(Clone, Copy, Debug, PartialEq, Eq, Structural)]
pub enum LogKind {
    /// A progress note (connection made, data saved).
    Info,
    /// A failed operation, with its description.
    Error,
    /// A successfully decoded device reply.
    Response,
}

/// One appended record: its kind, the wall-clock time it was made, a
/// status value or label, and the data rendered as hexadecimal or text.
#[derive(Clone, Debug)]
pub struct LogRecord {
    pub kind: LogKind,
    pub timestamp: String,
    pub label: String,
    pub data: String,
}

/// `new_log` is `old_log` with exactly one record of the given kind,
/// label and data appended at the end; the record's timestamp is whatever
/// the clock gave.
pub open spec fn appended(
    old_log: Seq<LogRecord>,
    new_log: Seq<LogRecord>,
    kind: LogKind,
    label: Seq<char>,
    data: Seq<char>,
) -> bool {
    &&& new_log.len() == old_log.len() + 1
    &&& new_log.drop_last() == old_log
    &&& new_log.last().kind == kind
    &&& new_log.last().label@ == label
    &&& new_log.last().data@ == data
}

/// Relies on chrono::Local::now for the wall-clock timestamp of a log
/// record; nothing is promised of the result, which depends on the clock.
#[verifier::external_body]
pub(crate) fn now_string() -> String {
    chrono::Local::now().to_string()
}

} // verus!
