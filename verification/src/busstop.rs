use std::collections::HashMap;
use vstd::prelude::*;

use crate::command::CommandHandler;
use crate::command::CommandHandlerManager;
use crate::command::CommandHandlerManagerView;
use crate::command::CommandMiddleware;
use crate::command::DispatchedCommand;
use crate::MiddlewareFlow;
use crate::query::DispatchedQuery;
use crate::query::DispatchedQueryView;
use crate::query::QueryHandler;
use crate::query::QueryHandlerManager;
use crate::query::QueryHandlerManagerView;
use crate::query::QueryMiddleware;
use crate::query::lemma_query_chain_runs_in_registration_order;
use crate::query::lemma_query_chain_short_circuits;
use crate::query::query_chain;

verus! {

broadcast use vstd::std_specs::hash::group_hash_axioms;

/// The failure of a registration attempt for a type key that already has a
/// handler. Double registration is a wiring-time programming error; the
/// registry refuses it and keeps the first handler.
#[derive(Clone, Copy, Debug, PartialEq, Eq, Structural)]
pub struct DuplicateHandlerError {
    /// The type key that already had a registered handler.
    pub key: u64,
}

/// The dispatch bus: two live registries from type key to handler manager —
/// one for commands, one for queries — plus two staging maps of middleware
/// queued for type keys that have no handler yet.
///
/// `P` is the payload type carried by envelopes, `H` and `M` the command
/// handler and middleware types, `QH` and `QM` their query counterparts.
pub struct Busstop<P, H, M, QH, QM> {
    command_middlewares: HashMap<u64, Vec<M>>,
    commands: HashMap<u64, CommandHandlerManager<P, H, M>>,
    queries: HashMap<u64, QueryHandlerManager<P, QH, QM>>,
    query_middlewares: HashMap<u64, Vec<QM>>,
}

impl<P, H, M, QH, QM> Busstop<P, H, M, QH, QM> {
    /// The live command registry: which handler manager serves each type key.
    pub closed spec fn spec_commands(self) -> Map<u64, CommandHandlerManagerView<H, M>> {
        self.commands@.map_values(|manager: CommandHandlerManager<P, H, M>| manager@)
    }

    /// The live query registry: which handler manager serves each type key.
    pub closed spec fn spec_queries(self) -> Map<u64, QueryHandlerManagerView<QH, QM>> {
        self.queries@.map_values(|manager: QueryHandlerManager<P, QH, QM>| manager@)
    }

    /// The staged command middleware, per type key, in registration order.
    pub closed spec fn spec_pending_command_middleware(self) -> Map<u64, Seq<M>> {
        self.command_middlewares@.map_values(|list: Vec<M>| list@)
    }

    /// The staged query middleware, per type key, in registration order.
    pub closed spec fn spec_pending_query_middleware(self) -> Map<u64, Seq<QM>> {
        self.query_middlewares@.map_values(|list: Vec<QM>| list@)
    }

    /// Whether a command handler is registered for `key`.
    pub open spec fn spec_command_has_handler(self, key: u64) -> bool {
        self.spec_commands().contains_key(key)
    }

    /// Whether a query handler is registered for `key`.
    pub open spec fn spec_query_has_handler(self, key: u64) -> bool {
        self.spec_queries().contains_key(key)
    }

    /// The middleware staged for command key `key`, or the empty chain when
    /// none is staged.
    pub open spec fn spec_pending_command_middleware_at(self, key: u64) -> Seq<M> {
        if self.spec_pending_command_middleware().contains_key(key) {
            self.spec_pending_command_middleware()[key]
        } else {
            Seq::empty()
        }
    }

    /// The middleware staged for query key `key`, or the empty chain when
    /// none is staged.
    pub open spec fn spec_pending_query_middleware_at(self, key: u64) -> Seq<QM> {
        if self.spec_pending_query_middleware().contains_key(key) {
            self.spec_pending_query_middleware()[key]
        } else {
            Seq::empty()
        }
    }
}

impl<
    P,
    H: CommandHandler<P>,
    M: CommandMiddleware<P>,
    QH: QueryHandler<P>,
    QM: QueryMiddleware<P>,
> Busstop<P, H, M, QH, QM> {
    /// A bus with empty registries and no staged middleware.
    pub fn new() -> (r: Self)
        ensures
            r.spec_commands() == Map::<u64, CommandHandlerManagerView<H, M>>::empty(),
            r.spec_queries() == Map::<u64, QueryHandlerManagerView<QH, QM>>::empty(),
            r.spec_pending_command_middleware() == Map::<u64, Seq<M>>::empty(),
            r.spec_pending_query_middleware() == Map::<u64, Seq<QM>>::empty(),
    {
        let bus = Busstop {
            command_middlewares: HashMap::new(),
            commands: HashMap::new(),
            queries: HashMap::new(),
            query_middlewares: HashMap::new(),
        };
        proof {
            assert(bus.spec_commands() =~= Map::<u64, CommandHandlerManagerView<H, M>>::empty());
            assert(bus.spec_queries() =~= Map::<u64, QueryHandlerManagerView<QH, QM>>::empty());
            assert(bus.spec_pending_command_middleware() =~= Map::<u64, Seq<M>>::empty());
            assert(bus.spec_pending_query_middleware() =~= Map::<u64, Seq<QM>>::empty());
        }
        bus
    }

    /// Whether a command handler is registered for `key`; no mutation.
    pub fn command_has_handler(&self, key: u64) -> (r: bool)
        ensures
            r == self.spec_command_has_handler(key),
    {
        let r = self.commands.contains_key(&key);
        proof {
            assert(self.spec_commands().contains_key(key) == self.commands@.contains_key(key));
        }
        r
    }

    /// Registers `handler` as the single command handler for `key`.
    ///
    /// Law: a handler can be registered once per key. Double registration is
    /// a fatal wiring-time programming error; verified code does not panic,
    /// so the attempt is refused with [`DuplicateHandlerError`] — for the
    /// caller to escalate as loudly as it sees fit — and provably leaves
    /// every registry and staging map untouched, so the first handler remains
    /// active. Otherwise a manager is created around `handler`, the
    /// middleware staged for `key` is drained into it — moved, not copied, in
    /// the order it was queued — and the manager is stored under `key`.
    #[verifier::loop_isolation(false)]
    pub fn register_command(&mut self, key: u64, handler: H) -> (r: Result<
        (),
        DuplicateHandlerError,
    >)
        ensures
            old(self).spec_command_has_handler(key) ==> {
                &&& r == Err::<(), DuplicateHandlerError>(DuplicateHandlerError { key })
                &&& final(self).spec_commands() == old(self).spec_commands()
                &&& final(self).spec_pending_command_middleware() == old(
                    self,
                ).spec_pending_command_middleware()
            },
            !old(self).spec_command_has_handler(key) ==> {
                &&& r == Ok::<(), DuplicateHandlerError>(())
                &&& final(self).spec_commands().contains_key(key)
                &&& final(self).spec_commands()[key].name == handler.spec_name()
                &&& final(self).spec_commands()[key].handler == handler
                &&& final(self).spec_commands()[key].middlewares == old(
                    self,
                ).spec_pending_command_middleware_at(key)
                &&& final(self).spec_commands().remove(key) == old(self).spec_commands()
                &&& final(self).spec_pending_command_middleware() == old(
                    self,
                ).spec_pending_command_middleware().remove(key)
            },
            final(self).spec_queries() == old(self).spec_queries(),
            final(self).spec_pending_query_middleware() == old(
                self,
            ).spec_pending_query_middleware(),
    {
        if self.commands.contains_key(&key) {
            return Err(DuplicateHandlerError { key });
        }
        let mut manager = CommandHandlerManager::new(handler);
        match self.command_middlewares.remove(&key) {
            Some(mut staged) => {
                let ghost queued = staged@;
                while staged.len() > 0
                    invariant
                        manager@.name == handler.spec_name(),
                        manager@.handler == handler,
                        manager@.middlewares + staged@ == queued,
                    decreases staged.len(),
                {
                    let ghost pre_chain = manager@.middlewares;
                    let ghost pre_staged = staged@;
                    let middleware = staged.remove(0);
                    manager.next(middleware);
                    proof {
                        assert(pre_chain.push(middleware) + pre_staged.remove(0) =~= pre_chain
                            + pre_staged);
                    }
                }
                proof {
                    assert(manager@.middlewares + staged@ =~= manager@.middlewares);
                    assert(old(self).spec_pending_command_middleware_at(key) == queued);
                }
            },
            None => {
                proof {
                    assert(manager@.middlewares + Seq::<M>::empty() =~= manager@.middlewares);
                    assert(old(self).spec_pending_command_middleware_at(key) == Seq::<M>::empty());
                }
            },
        }
        self.commands.insert(key, manager);
        proof {
            assert(self.spec_commands() =~= old(self).spec_commands().insert(key, manager@));
            assert(self.spec_commands().remove(key) =~= old(self).spec_commands());
            assert(self.spec_pending_command_middleware() =~= old(
                self,
            ).spec_pending_command_middleware().remove(key));
            assert(self.spec_queries() =~= old(self).spec_queries());
            assert(self.spec_pending_query_middleware() =~= old(
                self,
            ).spec_pending_query_middleware());
        }
        Ok(())
    }

    /// Whether a query handler is registered for `key`; no mutation.
    pub fn query_has_handler(&self, key: u64) -> (r: bool)
        ensures
            r == self.spec_query_has_handler(key),
    {
        let r = self.queries.contains_key(&key);
        proof {
            assert(self.spec_queries().contains_key(key) == self.queries@.contains_key(key));
        }
        r
    }

    /// Interposes `middleware` around the command handler for `key`, after
    /// every middleware registered for `key` before it.
    ///
    /// When a handler is already registered, the middleware is appended to
    /// that manager's chain and runs on all subsequent dispatches. Otherwise
    /// it is appended to the staging list for `key`, to be drained — in this
    /// same order — into the manager the moment a handler is registered, so
    /// middleware authors need not register after the handler.
    pub fn register_command_middleware(&mut self, key: u64, middleware: M)
        ensures
            old(self).spec_command_has_handler(key) ==> {
                &&& final(self).spec_commands() == old(self).spec_commands().insert(
                    key,
                    (CommandHandlerManagerView {
                        middlewares: old(self).spec_commands()[key].middlewares.push(middleware),
                        ..old(self).spec_commands()[key]
                    }),
                )
                &&& final(self).spec_pending_command_middleware() == old(
                    self,
                ).spec_pending_command_middleware()
            },
            !old(self).spec_command_has_handler(key) ==> {
                &&& final(self).spec_commands() == old(self).spec_commands()
                &&& final(self).spec_pending_command_middleware() == old(
                    self,
                ).spec_pending_command_middleware().insert(
                    key,
                    old(self).spec_pending_command_middleware_at(key).push(middleware),
                )
            },
            final(self).spec_queries() == old(self).spec_queries(),
            final(self).spec_pending_query_middleware() == old(
                self,
            ).spec_pending_query_middleware(),
    {
        if self.commands.contains_key(&key) {
            match self.commands.remove(&key) {
                Some(mut manager) => {
                    manager.next(middleware);
                    self.commands.insert(key, manager);
                    proof {
                        assert(self.spec_commands() =~= old(self).spec_commands().insert(
                            key,
                            (CommandHandlerManagerView {
                                middlewares: old(self).spec_commands()[key].middlewares.push(
                                    middleware,
                                ),
                                ..old(self).spec_commands()[key]
                            }),
                        ));
                        assert(self.spec_pending_command_middleware() =~= old(
                            self,
                        ).spec_pending_command_middleware());
                    }
                },
                None => {
                    // Unreachable: the registry contains `key`.
                    proof {
                        assert(false);
                    }
                },
            }
        } else {
            let mut staged = match self.command_middlewares.remove(&key) {
                Some(list) => list,
                None => Vec::new(),
            };
            proof {
                assert(staged@ == old(self).spec_pending_command_middleware_at(key));
            }
            staged.push(middleware);
            self.command_middlewares.insert(key, staged);
            proof {
                assert(self.spec_commands() =~= old(self).spec_commands());
                assert(self.spec_pending_command_middleware() =~= old(
                    self,
                ).spec_pending_command_middleware().insert(
                    key,
                    old(self).spec_pending_command_middleware_at(key).push(middleware),
                ));
            }
        }
        proof {
            assert(self.spec_queries() =~= old(self).spec_queries());
            assert(self.spec_pending_query_middleware() =~= old(
                self,
            ).spec_pending_query_middleware());
        }
    }

    /// Interposes `middleware` around the query handler for `key`, after
    /// every middleware registered for `key` before it.
    ///
    /// When a handler is already registered, the middleware is appended to
    /// that manager's chain and runs on all subsequent dispatches. Otherwise
    /// it is appended to the staging list for `key`, to be drained — in this
    /// same order — into the manager the moment a handler is registered, so
    /// middleware authors need not register after the handler.
    pub fn register_query_middleware(&mut self, key: u64, middleware: QM)
        ensures
            old(self).spec_query_has_handler(key) ==> {
                &&& final(self).spec_queries() == old(self).spec_queries().insert(
                    key,
                    (QueryHandlerManagerView {
                        middlewares: old(self).spec_queries()[key].middlewares.push(middleware),
                        ..old(self).spec_queries()[key]
                    }),
                )
                &&& final(self).spec_pending_query_middleware() == old(
                    self,
                ).spec_pending_query_middleware()
            },
            !old(self).spec_query_has_handler(key) ==> {
                &&& final(self).spec_queries() == old(self).spec_queries()
                &&& final(self).spec_pending_query_middleware() == old(
                    self,
                ).spec_pending_query_middleware().insert(
                    key,
                    old(self).spec_pending_query_middleware_at(key).push(middleware),
                )
            },
            final(self).spec_commands() == old(self).spec_commands(),
            final(self).spec_pending_command_middleware() == old(
                self,
            ).spec_pending_command_middleware(),
    {
        if self.queries.contains_key(&key) {
            match self.queries.remove(&key) {
                Some(mut manager) => {
                    manager.next(middleware);
                    self.queries.insert(key, manager);
                    proof {
                        assert(self.spec_queries() =~= old(self).spec_queries().insert(
                            key,
                            (QueryHandlerManagerView {
                                middlewares: old(self).spec_queries()[key].middlewares.push(
                                    middleware,
                                ),
                                ..old(self).spec_queries()[key]
                            }),
                        ));
                        assert(self.spec_pending_query_middleware() =~= old(
                            self,
                        ).spec_pending_query_middleware());
                    }
                },
                None => {
                    // Unreachable: the registry contains `key`.
                    proof {
                        assert(false);
                    }
                },
            }
        } else {
            let mut staged = match self.query_middlewares.remove(&key) {
                Some(list) => list,
                None => Vec::new(),
            };
            proof {
                assert(staged@ == old(self).spec_pending_query_middleware_at(key));
            }
            staged.push(middleware);
            self.query_middlewares.insert(key, staged);
            proof {
                assert(self.spec_queries() =~= old(self).spec_queries());
                assert(self.spec_pending_query_middleware() =~= old(
                    self,
                ).spec_pending_query_middleware().insert(
                    key,
                    old(self).spec_pending_query_middleware_at(key).push(middleware),
                ));
            }
        }
        proof {
            assert(self.spec_commands() =~= old(self).spec_commands());
            assert(self.spec_pending_command_middleware() =~= old(
                self,
            ).spec_pending_command_middleware());
        }
    }

    /// Registers `handler` as the single query handler for `key`.
    ///
    /// Law: a handler can be registered once per key. Double registration is
    /// a fatal wiring-time programming error; verified code does not panic,
    /// so the attempt is refused with [`DuplicateHandlerError`] — for the
    /// caller to escalate as loudly as it sees fit — and provably leaves
    /// every registry and staging map untouched, so the first handler remains
    /// active. Otherwise a manager is created around `handler`, the
    /// middleware staged for `key` is drained into it — moved, not copied, in
    /// the order it was queued — and the manager is stored under `key`.
    #[verifier::loop_isolation(false)]
    pub fn register_query(&mut self, key: u64, handler: QH) -> (r: Result<
        (),
        DuplicateHandlerError,
    >)
        ensures
            old(self).spec_query_has_handler(key) ==> {
                &&& r == Err::<(), DuplicateHandlerError>(DuplicateHandlerError { key })
                &&& final(self).spec_queries() == old(self).spec_queries()
                &&& final(self).spec_pending_query_middleware() == old(
                    self,
                ).spec_pending_query_middleware()
            },
            !old(self).spec_query_has_handler(key) ==> {
                &&& r == Ok::<(), DuplicateHandlerError>(())
                &&& final(self).spec_queries().contains_key(key)
                &&& final(self).spec_queries()[key].name == handler.spec_name()
                &&& final(self).spec_queries()[key].handler == handler
                &&& final(self).spec_queries()[key].middlewares == old(
                    self,
                ).spec_pending_query_middleware_at(key)
                &&& final(self).spec_queries().remove(key) == old(self).spec_queries()
                &&& final(self).spec_pending_query_middleware() == old(
                    self,
                ).spec_pending_query_middleware().remove(key)
            },
            final(self).spec_commands() == old(self).spec_commands(),
            final(self).spec_pending_command_middleware() == old(
                self,
            ).spec_pending_command_middleware(),
    {
        if self.queries.contains_key(&key) {
            return Err(DuplicateHandlerError { key });
        }
        let mut manager = QueryHandlerManager::new(handler);
        match self.query_middlewares.remove(&key) {
            Some(mut staged) => {
                let ghost queued = staged@;
                while staged.len() > 0
                    invariant
                        manager@.name == handler.spec_name(),
                        manager@.handler == handler,
                        manager@.middlewares + staged@ == queued,
                    decreases staged.len(),
                {
                    let ghost pre_chain = manager@.middlewares;
                    let ghost pre_staged = staged@;
                    let middleware = staged.remove(0);
                    manager.next(middleware);
                    proof {
                        assert(pre_chain.push(middleware) + pre_staged.remove(0) =~= pre_chain
                            + pre_staged);
                    }
                }
                proof {
                    assert(manager@.middlewares + staged@ =~= manager@.middlewares);
                    assert(old(self).spec_pending_query_middleware_at(key) == queued);
                }
            },
            None => {
                proof {
                    assert(manager@.middlewares + Seq::<QM>::empty() =~= manager@.middlewares);
                    assert(old(self).spec_pending_query_middleware_at(key) == Seq::<QM>::empty());
                }
            },
        }
        self.queries.insert(key, manager);
        proof {
            assert(self.spec_queries() =~= old(self).spec_queries().insert(key, manager@));
            assert(self.spec_queries().remove(key) =~= old(self).spec_queries());
            assert(self.spec_pending_query_middleware() =~= old(
                self,
            ).spec_pending_query_middleware().remove(key));
            assert(self.spec_commands() =~= old(self).spec_commands());
            assert(self.spec_pending_command_middleware() =~= old(
                self,
            ).spec_pending_command_middleware());
        }
        Ok(())
    }

    /// Dispatches a command: wraps `command` — whose declared type has type
    /// key `key` — in a fresh envelope and, when a handler is registered for
    /// `key`, runs that manager's composed chain.
    ///
    /// Law: the result reports whether the dispatch was handled, and it was
    /// handled exactly when a handler was registered — a dispatch with no
    /// registered handler returns `false` and has no effect on the bus.
    pub fn dispatch_command(&self, command: P, key: u64) -> (r: bool)
        ensures
            r == self.spec_command_has_handler(key),
    {
        let dispatched_command = DispatchedCommand::new(command, key);
        proof {
            assert(self.spec_commands().contains_key(key) == self.commands@.contains_key(key));
        }
        match self.commands.get(&key) {
            Some(manager) => {
                let result = manager.handle(dispatched_command);
                result.handled()
            },
            None => dispatched_command.handled(),
        }
    }

    /// Dispatches a query: wraps `query` — whose declared type has type key
    /// `key` — in a fresh envelope and, when a handler is registered for
    /// `key`, runs that manager's composed chain.
    ///
    /// Law: with no registered handler the fresh envelope comes back
    /// untouched — not handled and with no result; with one, the result is
    /// exactly the registered chain run on the fresh envelope, marked
    /// handled. Either way the envelope reports `handled` exactly when a
    /// handler was registered.
    pub fn dispatch_query(&self, query: P, key: u64) -> (r: DispatchedQuery<P>)
        ensures
            !self.spec_query_has_handler(key) ==> r@ == DispatchedQueryView::fresh(query, key),
            self.spec_query_has_handler(key) ==> r@ == query_chain(
                self.spec_queries()[key].middlewares,
                self.spec_queries()[key].handler,
                DispatchedQueryView::fresh(query, key),
            ).with_handled(),
            r@.handled == self.spec_query_has_handler(key),
    {
        let dispatched_query = DispatchedQuery::new(query, key);
        proof {
            assert(self.spec_queries().contains_key(key) == self.queries@.contains_key(key));
        }
        match self.queries.get(&key) {
            Some(manager) => {
                proof {
                    assert(self.spec_queries()[key] == manager@);
                }
                manager.handle(dispatched_query)
            },
            None => dispatched_query,
        }
    }
}

/// Law: a real dispatch observes middleware in registration order. On a bus
/// whose registered chain for `key` is exactly two middleware, where the
/// first continues with one envelope state and the second continues with
/// another, the chain's result — which, by [`Busstop::dispatch_query`]'s
/// contract, is what a dispatch of `query` under `key` returns, marked
/// handled — is the handler applied to the second middleware's output: first
/// middleware, then second middleware, then the handler.
pub proof fn lemma_dispatch_query_runs_middleware_in_registration_order<
    P,
    H,
    M,
    QH: QueryHandler<P>,
    QM: QueryMiddleware<P>,
>(
    bus: Busstop<P, H, M, QH, QM>,
    key: u64,
    query: P,
    after_first: DispatchedQueryView<P>,
    after_second: DispatchedQueryView<P>,
)
    requires
        bus.spec_query_has_handler(key),
        bus.spec_queries()[key].middlewares.len() == 2,
        bus.spec_queries()[key].middlewares[0].spec_on_query(
            DispatchedQueryView::fresh(query, key),
        ) == MiddlewareFlow::Continue(after_first),
        bus.spec_queries()[key].middlewares[1].spec_on_query(after_first)
            == MiddlewareFlow::Continue(after_second),
    ensures
        query_chain(
            bus.spec_queries()[key].middlewares,
            bus.spec_queries()[key].handler,
            DispatchedQueryView::fresh(query, key),
        ) == bus.spec_queries()[key].handler.spec_handle(after_second),
{
    let middlewares = bus.spec_queries()[key].middlewares;
    assert(middlewares =~= seq![middlewares[0], middlewares[1]]);
    lemma_query_chain_runs_in_registration_order(
        middlewares[0],
        middlewares[1],
        bus.spec_queries()[key].handler,
        DispatchedQueryView::fresh(query, key),
        after_first,
        after_second,
    );
}

/// Law: a middleware that short-circuits a real dispatch prevents the
/// handler and every later middleware from running. On a bus whose first
/// registered middleware for `key` short-circuits the fresh envelope, the
/// chain's result is that middleware's envelope alone — so, by
/// [`Busstop::dispatch_query`]'s contract, the dispatch returns it marked
/// handled, whatever middleware follow and whatever the handler would have
/// done.
pub proof fn lemma_dispatch_query_short_circuits<
    P,
    H,
    M,
    QH: QueryHandler<P>,
    QM: QueryMiddleware<P>,
>(
    bus: Busstop<P, H, M, QH, QM>,
    key: u64,
    query: P,
    stopped: DispatchedQueryView<P>,
)
    requires
        bus.spec_query_has_handler(key),
        bus.spec_queries()[key].middlewares.len() >= 1,
        bus.spec_queries()[key].middlewares[0].spec_on_query(
            DispatchedQueryView::fresh(query, key),
        ) == MiddlewareFlow::ShortCircuit(stopped),
    ensures
        query_chain(
            bus.spec_queries()[key].middlewares,
            bus.spec_queries()[key].handler,
            DispatchedQueryView::fresh(query, key),
        ) == stopped,
{
    lemma_query_chain_short_circuits(
        bus.spec_queries()[key].middlewares,
        bus.spec_queries()[key].handler,
        DispatchedQueryView::fresh(query, key),
        stopped,
    );
}

} // verus!

