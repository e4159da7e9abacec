//! The data model of the session layer: parameter values, requests going to
//! the server, and the decoded messages coming back.

use vstd::prelude::*;
use vstd::string::StringExecFns;

verus! {

/// A protocol-transmissible scalar.  The wire codec (outside this crate)
/// owns the full value union; the session layer only carries values through
/// unmodified, so the plain scalars modelled here are all it needs to hold.
#[derive(Clone, Debug, PartialEq, Eq)]
pub enum Value {
    Null,
    Bool(bool),
    Int(i64),
    Str(String),
}

/// A parameter mapping: parameter name to value, built fresh per statement.
/// Insertion order is irrelevant; the view is the mapping itself, with a
/// later insertion of the same key replacing the earlier one.
#[derive(Debug)]
pub struct Params {
    pub entries: Vec<(String, Value)>,
}

/// The mapping described by a sequence of insertions, later entries winning.
pub open spec fn params_map(s: Seq<(String, Value)>) -> Map<Seq<char>, Value>
    decreases s.len(),
{
    if s.len() == 0 {
        Map::empty()
    } else {
        params_map(s.drop_last()).insert(s.last().0@, s.last().1)
    }
}

impl View for Params {
    type V = Map<Seq<char>, Value>;

    open spec fn view(&self) -> Map<Seq<char>, Value> {
        params_map(self.entries@)
    }
}

impl Params {
    /// An empty parameter mapping.
    pub fn new() -> (p: Params)
        ensures
            p@ == Map::<Seq<char>, Value>::empty(),
            p.entries@.len() == 0,
    {
        Params { entries: Vec::new() }
    }

    /// Bind `key` to `value`, replacing any earlier binding of the same key.
    pub fn insert(&mut self, key: &str, value: Value)
        ensures
            final(self)@ == old(self)@.insert(key@, value),
    {
        self.entries.push((String::from_str(key), value));
        proof {
            assert(self.entries@.drop_last() =~= old(self).entries@);
        }
    }
}

/// The terminal message of one request: success metadata, a server-reported
/// failure, or the synthetic failure delivered when the transport breaks
/// mid-flush.  A server failure is a normal outcome for its own request; a
/// transport failure is fatal to the whole connection.
#[derive(Clone, Debug, PartialEq, Eq)]
pub enum Summary {
    Success,
    ServerFailure { code: String, message: String },
    TransportFailure,
}

/// One decoded message read back from the transport: either one row of
/// streamed result data, or the terminal summary of the oldest outstanding
/// request.
#[derive(Debug)]
pub enum Message {
    Record(Vec<Value>),
    Summary(Summary),
}

/// One protocol request, queued together with its response handler until the
/// next flush transmits it.
#[derive(Debug)]
pub enum Request {
    Run { statement: String, parameters: Params },
    DiscardAll,
    PullAll,
    Reset,
}

/// Does `r` run the control statement `stmt` with no parameters?
pub open spec fn is_control_run(r: Request, stmt: Seq<char>) -> bool {
    r matches Request::Run { statement, parameters } && statement@ == stmt
        && parameters@ == Map::<Seq<char>, Value>::empty()
}

/// The errors the session layer itself reports.  Server-side failures are
/// not here: they travel inside a `Summary` to the handler that owns them.
#[derive(Clone, Copy, Debug, PartialEq, Eq, Structural)]
pub enum SessionError {
    /// The connection was closed by an earlier fatal error; no further
    /// requests are accepted.
    ConnectionClosed,
    /// A handler received a message it cannot accept, or a message arrived
    /// with no outstanding handler: ordering has been lost, so the
    /// connection closes.
    ProtocolViolation,
    /// The transport failed mid-flush; the connection closes and every
    /// still-outstanding handler receives a synthetic failure summary.
    TransportFailure,
    /// The operation is not valid in the current transaction state, such as
    /// a commit with no transaction open.
    InvalidTransactionState,
}

/// The transaction state of a connection: `begin` moves `Idle` to `Active`;
/// `commit`, `rollback` and `reset` move back to `Idle`.
#[derive(Clone, Copy, Debug, PartialEq, Eq, Structural)]
pub enum TxState {
    Idle,
    Active,
}

} // verus!
