//! Response handlers: the capability attached to each queued request.  A
//! handler is invoked zero or more times with a record and then exactly once
//! with the terminal summary of its request, after which the dispatcher
//! never addresses it again.

use vstd::prelude::*;
use crate::protocol::{SessionError, Summary, Value};

verus! {

/// The closed set of handler behaviours.
///
/// - `Silent` discards everything; for control requests whose outcome the
///   caller does not need to inspect.
/// - `Capture` stores the summary for inspection after the flush and treats
///   any record as a protocol violation: control statements must not stream
///   rows.
/// - `Streaming` keeps each record in arrival order and finalizes when the
///   summary arrives; for statements that return data.
#[derive(Debug)]
pub enum Handler {
    Silent,
    Capture { summary: Option<Summary> },
    Streaming { records: Vec<Vec<Value>>, outcome: Option<Summary> },
}

/// The mathematical model of a handler: the same three shapes, with the
/// record buffer abstracted to a sequence.
pub enum HandlerView {
    Silent,
    Capture { summary: Option<Summary> },
    Streaming { records: Seq<Vec<Value>>, outcome: Option<Summary> },
}

impl View for Handler {
    type V = HandlerView;

    open spec fn view(&self) -> HandlerView {
        match self {
            Handler::Silent => HandlerView::Silent,
            Handler::Capture { summary } => HandlerView::Capture { summary: *summary },
            Handler::Streaming { records, outcome } => HandlerView::Streaming {
                records: records@,
                outcome: *outcome,
            },
        }
    }
}

/// May a record be delivered to this handler?  Only the capture shape
/// declares that it expects no rows.
pub open spec fn accepts_record(h: HandlerView) -> bool {
    !(h is Capture)
}

/// The handler after one record is delivered to it.  Meaningful only when
/// `accepts_record(h)` holds; a capture handler is left unchanged because
/// the dispatcher refuses the record instead.
pub open spec fn absorb_record(h: HandlerView, rec: Vec<Value>) -> HandlerView {
    match h {
        HandlerView::Silent => HandlerView::Silent,
        HandlerView::Capture { summary } => HandlerView::Capture { summary },
        HandlerView::Streaming { records, outcome } => HandlerView::Streaming {
            records: records.push(rec),
            outcome,
        },
    }
}

/// The handler after its terminal summary is delivered.
pub open spec fn absorb_summary(h: HandlerView, s: Summary) -> HandlerView {
    match h {
        HandlerView::Silent => HandlerView::Silent,
        HandlerView::Capture { .. } => HandlerView::Capture { summary: Some(s) },
        HandlerView::Streaming { records, .. } => HandlerView::Streaming {
            records,
            outcome: Some(s),
        },
    }
}

impl Handler {
    /// A fresh streaming handler with nothing delivered yet.
    pub fn streaming() -> (h: Handler)
        ensures
            h@ == (HandlerView::Streaming { records: Seq::<Vec<Value>>::empty(), outcome: None }),
    {
        Handler::Streaming { records: Vec::new(), outcome: None }
    }

    /// A fresh capture handler with no summary yet.
    pub fn capture() -> (h: Handler)
        ensures
            h@ == (HandlerView::Capture { summary: None }),
    {
        Handler::Capture { summary: None }
    }

    /// Does this handler accept streamed records?
    pub fn accepts_records(&self) -> (b: bool)
        ensures
            b == accepts_record(self@),
    {
        match self {
            Handler::Capture { .. } => false,
            Handler::Silent => true,
            Handler::Streaming { .. } => true,
        }
    }

    /// Deliver one row of result data.  A capture handler reports a protocol
    /// violation: a record arrived where only a summary was expected.
    pub fn on_record(self, rec: Vec<Value>) -> (r: Result<Handler, SessionError>)
        ensures
            accepts_record(self@) ==> (r matches Ok(h) && h@ == absorb_record(self@, rec)),
            !accepts_record(self@) ==> r == Err::<Handler, SessionError>(
                SessionError::ProtocolViolation,
            ),
    {
        match self {
            Handler::Silent => Ok(Handler::Silent),
            Handler::Capture { .. } => Err(SessionError::ProtocolViolation),
            Handler::Streaming { records, outcome } => {
                let mut records = records;
                records.push(rec);
                Ok(Handler::Streaming { records, outcome })
            },
        }
    }

    /// Deliver the terminal summary.  Every handler accepts it; the capture
    /// and streaming shapes store it for the issuer to inspect.
    pub fn on_summary(self, s: Summary) -> (h: Handler)
        ensures
            h@ == absorb_summary(self@, s),
    {
        match self {
            Handler::Silent => Handler::Silent,
            Handler::Capture { .. } => Handler::Capture { summary: Some(s) },
            Handler::Streaming { records, .. } => Handler::Streaming {
                records,
                outcome: Some(s),
            },
        }
    }
}

} // verus!
