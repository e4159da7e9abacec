//! The connection: an index-addressed queue of pending requests with their
//! handlers, the transaction state, and the dispatch rules that route every
//! decoded message to the oldest outstanding handler.

use vstd::prelude::*;
use vstd::string::StringExecFns;
use crate::batch::{
    batch_start, fail_between, fail_from, lemma_run_from_stuck, run_batch, run_from, step_outcome,
};
use crate::handler::{Handler, HandlerView};
use crate::protocol::{is_control_run, Message, Params, Request, SessionError, Summary, TxState};

verus! {

/// One pending request: what will be (or was) sent, and the handler that
/// owns every response to it.  Entries are never reordered; a slot stays in
/// place after its summary arrives so the issuer can inspect its handler.
pub struct Entry {
    pub request: Request,
    pub handler: Handler,
}

/// One logical session over one transport connection.
///
/// `entries` is the arena of requests enqueued since the connection opened
/// (cleared of its outstanding tail only by `reset`); `front` indexes the
/// oldest entry whose terminal summary has not arrived yet, so the entries
/// from `front` on are the pending queue.  `tx` is the transaction state and
/// `closed` is set by the fatal errors, after which nothing more is
/// accepted.
pub struct Connection {
    pub entries: Vec<Entry>,
    pub front: usize,
    pub tx: TxState,
    pub closed: bool,
}

impl Connection {
    /// The front index never points past the end of the arena.
    pub open spec fn wf(self) -> bool {
        self.front <= self.entries@.len()
    }

    /// The handler of every slot, as its mathematical model.
    pub open spec fn handlers(self) -> Seq<HandlerView> {
        self.entries@.map(|i: int, e: Entry| e.handler@)
    }

    /// The request of every slot.
    pub open spec fn requests(self) -> Seq<Request> {
        self.entries@.map(|i: int, e: Entry| e.request)
    }

    /// How many requests still await their terminal summary.
    pub open spec fn outstanding(self) -> int {
        self.entries@.len() - self.front
    }

    /// A fresh connection: nothing queued, no transaction open.  The
    /// authentication handshake that produces a live transport happens
    /// outside this crate, before the session starts.
    pub fn new() -> (c: Connection)
        ensures
            c.wf(),
            c.entries@.len() == 0,
            c.front == 0,
            c.tx == TxState::Idle,
            !c.closed,
    {
        Connection { entries: Vec::new(), front: 0, tx: TxState::Idle, closed: false }
    }

    /// Append a request and its handler to the pending queue.  Never blocks
    /// and never touches the transport; fails only when the connection is
    /// already closed.  Returns the slot index, at which the handler can be
    /// inspected after the flush that answers it.
    pub fn enqueue(&mut self, request: Request, handler: Handler) -> (r: Result<
        usize,
        SessionError,
    >)
        requires
            old(self).wf(),
        ensures
            final(self).wf(),
            final(self).tx == old(self).tx,
            final(self).closed == old(self).closed,
            final(self).front == old(self).front,
            old(self).closed ==> r == Err::<usize, SessionError>(SessionError::ConnectionClosed)
                && *final(self) == *old(self),
            !old(self).closed ==> {
                &&& r == Ok::<usize, SessionError>(old(self).entries@.len() as usize)
                &&& final(self).entries@ == old(self).entries@.push(
                    (Entry { request, handler }),
                )
                &&& final(self).handlers() == old(self).handlers().push(handler@)
                &&& final(self).requests() == old(self).requests().push(request)
            },
    {
        if self.closed {
            return Err(SessionError::ConnectionClosed);
        }
        let idx = self.entries.len();
        self.entries.push(Entry { request, handler });
        proof {
            assert(self.handlers() =~= old(self).handlers().push(
                self.entries@.last().handler@,
            ));
            assert(self.requests() =~= old(self).requests().push(self.entries@.last().request));
        }
        Ok(idx)
    }

    /// Route one decoded message.  A record is delivered to the front
    /// handler in place; a summary is delivered to it and moves `front` past
    /// it.  A message with no outstanding handler, or a record at a handler
    /// that expects none, is a protocol violation: ordering has been lost,
    /// so the connection closes and the queue is left as it stood.
    pub fn dispatch(&mut self, m: Message) -> (r: Result<(), SessionError>)
        requires
            old(self).wf(),
            !old(self).closed,
        ensures
            final(self).wf(),
            final(self).tx == old(self).tx,
            final(self).entries@.len() == old(self).entries@.len(),
            final(self).requests() == old(self).requests(),
            ({
                let out = step_outcome(
                    batch_start(old(self).handlers(), old(self).front as int),
                    m,
                );
                &&& final(self).handlers() == out.handlers
                &&& final(self).front as int == out.front
                &&& final(self).closed == !out.ok
                &&& (out.ok ==> r == Ok::<(), SessionError>(()))
                &&& (!out.ok ==> r == Err::<(), SessionError>(SessionError::ProtocolViolation))
            }),
    {
        let idx = self.front;
        if idx >= self.entries.len() {
            self.closed = true;
            return Err(SessionError::ProtocolViolation);
        }
        let e = self.entries.remove(idx);
        let Entry { request, handler } = e;
        match m {
            Message::Record(rec) => {
                match handler {
                    Handler::Capture { summary } => {
                        self.entries.insert(
                            idx,
                            Entry { request, handler: Handler::Capture { summary } },
                        );
                        self.closed = true;
                        proof {
                            assert(self.entries@ =~= old(self).entries@);
                        }
                        Err(SessionError::ProtocolViolation)
                    },
                    Handler::Silent => {
                        self.entries.insert(idx, Entry { request, handler: Handler::Silent });
                        proof {
                            Self::lemma_update_views(*old(self), *self, idx as int);
                        }
                        Ok(())
                    },
                    Handler::Streaming { records, outcome } => {
                        let mut records = records;
                        records.push(rec);
                        self.entries.insert(
                            idx,
                            Entry { request, handler: Handler::Streaming { records, outcome } },
                        );
                        proof {
                            Self::lemma_update_views(*old(self), *self, idx as int);
                        }
                        Ok(())
                    },
                }
            },
            Message::Summary(s) => {
                let h2 = handler.on_summary(s);
                self.entries.insert(idx, Entry { request, handler: h2 });
                self.front = idx + 1;
                proof {
                    Self::lemma_update_views(*old(self), *self, idx as int);
                }
                Ok(())
            },
        }
    }

    /// Dispatch the decoded messages that one transport round trip brought
    /// back.  `transport_ok` says whether the transport delivered the whole
    /// batch; when it failed mid-flush, the messages it did deliver are
    /// dispatched normally, every handler still outstanding then receives a
    /// synthetic `TransportFailure` summary, and the connection closes.  A
    /// batch the transport completed must answer every outstanding request
    /// exactly; anything else is a protocol violation, which also closes the
    /// connection.
    #[verifier::loop_isolation(false)]
    pub fn flush(&mut self, msgs: Vec<Message>, transport_ok: bool) -> (r: Result<
        (),
        SessionError,
    >)
        requires
            old(self).wf(),
        ensures
            final(self).wf(),
            final(self).tx == old(self).tx,
            final(self).entries@.len() == old(self).entries@.len(),
            final(self).requests() == old(self).requests(),
            old(self).closed ==> r == Err::<(), SessionError>(SessionError::ConnectionClosed)
                && *final(self) == *old(self),
            !old(self).closed ==> ({
                let out = run_batch(old(self).handlers(), old(self).front as int, msgs@);
                &&& (!out.ok ==> {
                    &&& r == Err::<(), SessionError>(SessionError::ProtocolViolation)
                    &&& final(self).closed
                    &&& final(self).handlers() == out.handlers
                    &&& final(self).front as int == out.front
                })
                &&& (out.ok && transport_ok && out.front == old(self).entries@.len() ==> {
                    &&& r == Ok::<(), SessionError>(())
                    &&& !final(self).closed
                    &&& final(self).handlers() == out.handlers
                    &&& final(self).front as int == out.front
                })
                &&& (out.ok && transport_ok && out.front < old(self).entries@.len() ==> {
                    &&& r == Err::<(), SessionError>(SessionError::ProtocolViolation)
                    &&& final(self).closed
                    &&& final(self).handlers() == out.handlers
                    &&& final(self).front as int == out.front
                })
                &&& (out.ok && !transport_ok ==> {
                    &&& r == Err::<(), SessionError>(SessionError::TransportFailure)
                    &&& final(self).closed
                    &&& final(self).handlers() == fail_from(out.handlers, out.front)
                    &&& final(self).front == final(self).entries@.len()
                })
            }),
    {
        if self.closed {
            return Err(SessionError::ConnectionClosed);
        }
        let ghost pre = *self;
        let ghost all = msgs@;
        let mut ms = msgs;
        let total: usize = ms.len();
        let mut processed: usize = 0;
        proof {
            assert(all.take(0) =~= Seq::<Message>::empty());
        }
        while ms.len() > 0
            invariant
                self.wf(),
                !self.closed,
                self.tx == pre.tx,
                self.entries@.len() == pre.entries@.len(),
                self.requests() == pre.requests(),
                all.len() == total as int,
                processed <= total,
                processed + ms@.len() == all.len(),
                ms@ == all.skip(processed as int),
                ({
                    let out = run_from(
                        batch_start(pre.handlers(), pre.front as int),
                        all.take(processed as int),
                    );
                    &&& out.ok
                    &&& self.handlers() == out.handlers
                    &&& self.front as int == out.front
                }),
            decreases ms@.len(),
        {
            let m = ms.remove(0);
            proof {
                assert(m == all[processed as int]);
                assert(all.take(processed as int + 1).drop_last() =~= all.take(processed as int));
                assert(all.take(processed as int + 1).last() == all[processed as int]);
                assert(batch_start(self.handlers(), self.front as int) =~= run_from(
                    batch_start(pre.handlers(), pre.front as int),
                    all.take(processed as int),
                ));
            }
            let res = self.dispatch(m);
            processed = processed + 1;
            proof {
                assert(ms@ =~= all.skip(processed as int));
            }
            match res {
                Ok(()) => {},
                Err(err) => {
                    proof {
                        lemma_run_from_stuck(
                            batch_start(pre.handlers(), pre.front as int),
                            all,
                            processed as int,
                        );
                        assert(all.take(all.len() as int) =~= all);
                    }
                    return Err(err);
                },
            }
        }
        proof {
            assert(all.take(processed as int) =~= all);
        }
        // Every message dispatched cleanly.
        if !transport_ok {
            let ghost base = *self;
            proof {
                assert(self.handlers() =~= fail_between(
                    base.handlers(),
                    base.front as int,
                    base.front as int,
                ));
            }
            while self.front < self.entries.len()
                invariant
                    self.wf(),
                    !self.closed,
                    self.tx == base.tx,
                    self.entries@.len() == base.entries@.len(),
                    self.requests() == base.requests(),
                    base.front <= self.front,
                    self.handlers() == fail_between(
                        base.handlers(),
                        base.front as int,
                        self.front as int,
                    ),
                decreases self.entries@.len() - self.front,
            {
                proof {
                    assert(self.handlers()[self.front as int] == base.handlers()[
                        self.front as int
                    ]);
                }
                let ghost before = *self;
                match self.dispatch(Message::Summary(Summary::TransportFailure)) {
                    Ok(()) => {},
                    Err(_) => {
                        proof {
                            assert(false);
                        }
                    },
                }
                proof {
                    assert(self.handlers() =~= fail_between(
                        base.handlers(),
                        base.front as int,
                        self.front as int,
                    ));
                }
            }
            self.closed = true;
            proof {
                assert(self.handlers() =~= fail_from(base.handlers(), base.front as int));
            }
            return Err(SessionError::TransportFailure);
        }
        if self.front < self.entries.len() {
            // The transport says the batch is complete, yet requests are
            // still unanswered: ordering has been lost.
            self.closed = true;
            return Err(SessionError::ProtocolViolation);
        }
        Ok(())
    }

    /// Open an explicit transaction: queue `RUN "BEGIN"` and a discard of
    /// its result, both silent, and move the transaction state from `Idle`
    /// to `Active`.  Nothing is transmitted yet — several statements can be
    /// pipelined before the next flush.  Rejected while a transaction is
    /// already open, and on a closed connection.
    pub fn begin(&mut self) -> (r: Result<(), SessionError>)
        requires
            old(self).wf(),
        ensures
            final(self).wf(),
            final(self).front == old(self).front,
            final(self).closed == old(self).closed,
            old(self).closed ==> r == Err::<(), SessionError>(SessionError::ConnectionClosed)
                && *final(self) == *old(self),
            !old(self).closed && old(self).tx != TxState::Idle ==> r == Err::<(), SessionError>(
                SessionError::InvalidTransactionState,
            ) && *final(self) == *old(self),
            !old(self).closed && old(self).tx == TxState::Idle ==> {
                let n = old(self).entries@.len() as int;
                &&& r == Ok::<(), SessionError>(())
                &&& final(self).tx == TxState::Active
                &&& final(self).entries@.len() == n + 2
                &&& final(self).requests().take(n) == old(self).requests()
                &&& final(self).handlers().take(n) == old(self).handlers()
                &&& is_control_run(final(self).requests()[n], "BEGIN"@)
                &&& final(self).handlers()[n] is Silent
                &&& final(self).requests()[n + 1] is DiscardAll
                &&& final(self).handlers()[n + 1] is Silent
            },
    {
        if self.closed {
            return Err(SessionError::ConnectionClosed);
        }
        match self.tx {
            TxState::Active => {
                return Err(SessionError::InvalidTransactionState);
            },
            TxState::Idle => {},
        }
        self.entries.push(
            Entry {
                request: Request::Run {
                    statement: String::from_str("BEGIN"),
                    parameters: Params::new(),
                },
                handler: Handler::Silent,
            },
        );
        self.entries.push(Entry { request: Request::DiscardAll, handler: Handler::Silent });
        self.tx = TxState::Active;
        proof {
            let n = old(self).entries@.len() as int;
            assert(self.requests().take(n) =~= old(self).requests());
            assert(self.handlers().take(n) =~= old(self).handlers());
        }
        Ok(())
    }

    /// Queue a statement together with the handler that will own its
    /// results: `RUN` with a silent handler for its own summary, then
    /// `PULL-ALL` carrying the caller's handler, to which every row and the
    /// terminal summary are routed.  Valid in any transaction state — a
    /// statement run outside an open transaction is an auto-commit
    /// statement.  Returns the slot index of the `PULL-ALL` entry, where the
    /// handler can be inspected after the next flush.
    pub fn run(&mut self, statement: &str, parameters: Params, handler: Handler) -> (r: Result<
        usize,
        SessionError,
    >)
        requires
            old(self).wf(),
        ensures
            final(self).wf(),
            final(self).front == old(self).front,
            final(self).closed == old(self).closed,
            final(self).tx == old(self).tx,
            old(self).closed ==> r == Err::<usize, SessionError>(SessionError::ConnectionClosed)
                && *final(self) == *old(self),
            !old(self).closed ==> {
                let n = old(self).entries@.len() as int;
                &&& (r matches Ok(idx) && idx as int == n + 1)
                &&& final(self).entries@.len() == n + 2
                &&& final(self).requests().take(n) == old(self).requests()
                &&& final(self).handlers().take(n) == old(self).handlers()
                &&& (final(self).requests()[n] matches Request::Run {
                    statement: st,
                    parameters: ps,
                } && st@ == statement@ && ps == parameters)
                &&& final(self).handlers()[n] is Silent
                &&& final(self).requests()[n + 1] is PullAll
                &&& final(self).handlers()[n + 1] == handler@
            },
    {
        if self.closed {
            return Err(SessionError::ConnectionClosed);
        }
        self.entries.push(
            Entry {
                request: Request::Run { statement: String::from_str(statement), parameters },
                handler: Handler::Silent,
            },
        );
        let idx = self.entries.len();
        self.entries.push(Entry { request: Request::PullAll, handler });
        proof {
            let n = old(self).entries@.len() as int;
            assert(self.requests().take(n) =~= old(self).requests());
            assert(self.handlers().take(n) =~= old(self).handlers());
        }
        Ok(idx)
    }

    /// Close the open transaction: queue `RUN "COMMIT"` with a capture
    /// handler and a silent discard of its result, and move the transaction
    /// state back to `Idle`.  The caller completes the round trip with a
    /// flush and inspects the commit's outcome at the returned slot index.
    /// Rejected while no transaction is open, and on a closed connection.
    pub fn commit(&mut self) -> (r: Result<usize, SessionError>)
        requires
            old(self).wf(),
        ensures
            final(self).wf(),
            final(self).front == old(self).front,
            final(self).closed == old(self).closed,
            old(self).closed ==> r == Err::<usize, SessionError>(SessionError::ConnectionClosed)
                && *final(self) == *old(self),
            !old(self).closed && old(self).tx != TxState::Active ==> r == Err::<
                usize,
                SessionError,
            >(SessionError::InvalidTransactionState) && *final(self) == *old(self),
            !old(self).closed && old(self).tx == TxState::Active ==> {
                let n = old(self).entries@.len() as int;
                &&& (r matches Ok(idx) && idx as int == n)
                &&& final(self).tx == TxState::Idle
                &&& final(self).entries@.len() == n + 2
                &&& final(self).requests().take(n) == old(self).requests()
                &&& final(self).handlers().take(n) == old(self).handlers()
                &&& is_control_run(final(self).requests()[n], "COMMIT"@)
                &&& final(self).handlers()[n] == (HandlerView::Capture { summary: None })
                &&& final(self).requests()[n + 1] is DiscardAll
                &&& final(self).handlers()[n + 1] is Silent
            },
    {
        if self.closed {
            return Err(SessionError::ConnectionClosed);
        }
        match self.tx {
            TxState::Idle => {
                return Err(SessionError::InvalidTransactionState);
            },
            TxState::Active => {},
        }
        let idx = self.entries.len();
        self.entries.push(
            Entry {
                request: Request::Run {
                    statement: String::from_str("COMMIT"),
                    parameters: Params::new(),
                },
                handler: Handler::Capture { summary: None },
            },
        );
        self.entries.push(Entry { request: Request::DiscardAll, handler: Handler::Silent });
        self.tx = TxState::Idle;
        proof {
            let n = old(self).entries@.len() as int;
            assert(self.requests().take(n) =~= old(self).requests());
            assert(self.handlers().take(n) =~= old(self).handlers());
        }
        Ok(idx)
    }

    /// Abandon the open transaction: queue `RUN "ROLLBACK"` with a capture
    /// handler and a silent discard of its result, and move the transaction
    /// state back to `Idle`.  The caller completes the round trip with a
    /// flush and inspects the rollback's outcome at the returned slot index.
    /// A rollback with no transaction open is rejected, like a commit, so
    /// that the mistake is visible rather than silently ignored; `reset`
    /// is the unconditional way back to a clean state.
    pub fn rollback(&mut self) -> (r: Result<usize, SessionError>)
        requires
            old(self).wf(),
        ensures
            final(self).wf(),
            final(self).front == old(self).front,
            final(self).closed == old(self).closed,
            old(self).closed ==> r == Err::<usize, SessionError>(SessionError::ConnectionClosed)
                && *final(self) == *old(self),
            !old(self).closed && old(self).tx != TxState::Active ==> r == Err::<
                usize,
                SessionError,
            >(SessionError::InvalidTransactionState) && *final(self) == *old(self),
            !old(self).closed && old(self).tx == TxState::Active ==> {
                let n = old(self).entries@.len() as int;
                &&& (r matches Ok(idx) && idx as int == n)
                &&& final(self).tx == TxState::Idle
                &&& final(self).entries@.len() == n + 2
                &&& final(self).requests().take(n) == old(self).requests()
                &&& final(self).handlers().take(n) == old(self).handlers()
                &&& is_control_run(final(self).requests()[n], "ROLLBACK"@)
                &&& final(self).handlers()[n] == (HandlerView::Capture { summary: None })
                &&& final(self).requests()[n + 1] is DiscardAll
                &&& final(self).handlers()[n + 1] is Silent
            },
    {
        if self.closed {
            return Err(SessionError::ConnectionClosed);
        }
        match self.tx {
            TxState::Idle => {
                return Err(SessionError::InvalidTransactionState);
            },
            TxState::Active => {},
        }
        let idx = self.entries.len();
        self.entries.push(
            Entry {
                request: Request::Run {
                    statement: String::from_str("ROLLBACK"),
                    parameters: Params::new(),
                },
                handler: Handler::Capture { summary: None },
            },
        );
        self.entries.push(Entry { request: Request::DiscardAll, handler: Handler::Silent });
        self.tx = TxState::Idle;
        proof {
            let n = old(self).entries@.len() as int;
            assert(self.requests().take(n) =~= old(self).requests());
            assert(self.handlers().take(n) =~= old(self).handlers());
        }
        Ok(idx)
    }

    /// Force the session back to a clean state, whatever came before: the
    /// transaction state returns to `Idle` and every request still awaiting
    /// its summary is dropped from the queue, its expectations discarded.
    /// On an open connection a `RESET` request with a capture handler is
    /// then queued, and the caller completes the round trip with a flush;
    /// the returned slot index is where its outcome lands.  On a closed
    /// connection the local state is still cleaned, but no request can be
    /// queued, so `ConnectionClosed` is reported.  Calling `reset` twice in
    /// a row is safe: both calls leave the state `Idle`.
    pub fn reset(&mut self) -> (r: Result<usize, SessionError>)
        requires
            old(self).wf(),
        ensures
            final(self).wf(),
            final(self).tx == TxState::Idle,
            final(self).closed == old(self).closed,
            final(self).front == old(self).front,
            final(self).requests().take(old(self).front as int) == old(self).requests().take(
                old(self).front as int,
            ),
            final(self).handlers().take(old(self).front as int) == old(self).handlers().take(
                old(self).front as int,
            ),
            old(self).closed ==> {
                &&& r == Err::<usize, SessionError>(SessionError::ConnectionClosed)
                &&& final(self).entries@.len() == old(self).front
                &&& final(self).outstanding() == 0
            },
            !old(self).closed ==> {
                &&& (r matches Ok(idx) && idx == old(self).front)
                &&& final(self).entries@.len() == old(self).front + 1
                &&& final(self).outstanding() == 1
                &&& final(self).requests()[old(self).front as int] is Reset
                &&& final(self).handlers()[old(self).front as int] == (HandlerView::Capture {
                    summary: None,
                })
            },
    {
        self.tx = TxState::Idle;
        let keep = self.front;
        self.entries.truncate(keep);
        proof {
            assert(self.requests().take(keep as int) =~= old(self).requests().take(keep as int));
            assert(self.handlers().take(keep as int) =~= old(self).handlers().take(keep as int));
        }
        if self.closed {
            return Err(SessionError::ConnectionClosed);
        }
        self.entries.push(
            Entry { request: Request::Reset, handler: Handler::Capture { summary: None } },
        );
        proof {
            assert(self.requests().take(keep as int) =~= old(self).requests().take(keep as int));
            assert(self.handlers().take(keep as int) =~= old(self).handlers().take(keep as int));
        }
        Ok(keep)
    }

    /// After one slot's handler is replaced in place, the request sequence
    /// is unchanged and the handler sequence is an update at that slot.
    proof fn lemma_update_views(pre: Connection, post: Connection, idx: int)
        requires
            0 <= idx < pre.entries@.len(),
            post.entries@.len() == pre.entries@.len(),
            forall|j: int|
                0 <= j < pre.entries@.len() && j != idx ==> post.entries@[j] == pre.entries@[j],
            post.entries@[idx].request == pre.entries@[idx].request,
        ensures
            post.requests() == pre.requests(),
            post.handlers() == pre.handlers().update(idx, post.entries@[idx].handler@),
    {
        assert(post.requests() =~= pre.requests());
        assert(post.handlers() =~= pre.handlers().update(idx, post.entries@[idx].handler@));
    }
}

} // verus!
