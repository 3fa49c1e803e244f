mod dispatched_query;
mod query_handler;

use core::marker::PhantomData;
use vstd::prelude::*;

pub use dispatched_query::DispatchedQuery;
pub use dispatched_query::DispatchedQueryView;
pub use dispatched_query::lemma_query_value_write_once;
pub use dispatched_query::lemma_taken_query_payload_is_gone;
pub use query_handler::QueryHandler;

use crate::MiddlewareFlow;

verus! {

/// A middleware interposed around a query handler. Each dispatch hands the
/// middleware the envelope; the middleware either continues the chain with an
/// (optionally rewritten) envelope or short-circuits, in which case neither
/// the later middleware nor the handler run.
///
/// The trait carries its own specification: `spec_on_query` says, as a
/// function on envelope states, what the middleware decides, and `on_query`
/// promises to behave exactly like it. Every contract the bus states about a
/// dispatch is relative to this promise; an implementation outside verified
/// code is not checked against it.
pub trait QueryMiddleware<P> {
    /// What the middleware decides, as a function on envelope states.
    spec fn spec_on_query(&self, query: DispatchedQueryView<P>) -> MiddlewareFlow<
        DispatchedQueryView<P>,
    >;

    /// Inspect the envelope and either continue the chain or short-circuit.
    fn on_query(&self, query: DispatchedQuery<P>) -> (r: MiddlewareFlow<DispatchedQuery<P>>)
        ensures
            r@ == self.spec_on_query(query@),
    ;
}

/// The envelope state produced by running `middlewares` in order — first
/// element first — around the terminal `handler`, starting from `env`. A
/// middleware that continues hands its envelope to the rest of the chain,
/// which falls through to the handler at the end; a middleware that
/// short-circuits makes its envelope the result, and nothing after it runs.
pub open spec fn query_chain<P, H: QueryHandler<P>, M: QueryMiddleware<P>>(
    middlewares: Seq<M>,
    handler: H,
    env: DispatchedQueryView<P>,
) -> DispatchedQueryView<P>
    decreases middlewares.len(),
{
    if middlewares.len() == 0 {
        handler.spec_handle(env)
    } else {
        match middlewares[0].spec_on_query(env) {
            MiddlewareFlow::Continue(e) => query_chain(middlewares.drop_first(), handler, e),
            MiddlewareFlow::ShortCircuit(e) => e,
        }
    }
}

/// The mathematical state of a query handler manager: its display name, the
/// terminal handler, and the middleware chain in registration order.
pub struct QueryHandlerManagerView<H, M> {
    /// The display name the handler reported at registration time.
    pub name: Seq<char>,
    /// The terminal handler.
    pub handler: H,
    /// The middleware, first-registered first.
    pub middlewares: Seq<M>,
}

/// Binds one terminal query handler to an ordered list of middleware and
/// composes them into a single `Envelope -> Envelope` operation: the
/// first-registered middleware observes the envelope first and is the only
/// one that can keep the whole rest of the chain from running.
pub struct QueryHandlerManager<P, H, M> {
    name: String,
    handler: H,
    middlewares: Vec<M>,
    payload: PhantomData<P>,
}

impl<P, H, M> View for QueryHandlerManager<P, H, M> {
    type V = QueryHandlerManagerView<H, M>;

    closed spec fn view(&self) -> QueryHandlerManagerView<H, M> {
        QueryHandlerManagerView {
            name: self.name@,
            handler: self.handler,
            middlewares: self.middlewares@,
        }
    }
}

impl<P, H: QueryHandler<P>, M: QueryMiddleware<P>> QueryHandlerManager<P, H, M> {
    /// A manager wrapping `handler`, with no middleware yet and the name the
    /// handler reports for itself.
    pub fn new(handler: H) -> (r: Self)
        ensures
            r@.name == handler.spec_name(),
            r@.handler == handler,
            r@.middlewares == Seq::<M>::empty(),
    {
        let name = handler.query_handler_name();
        QueryHandlerManager { name, handler, middlewares: Vec::new(), payload: PhantomData }
    }

    /// The display name of the wrapped handler.
    pub fn name(&self) -> (r: &String)
        ensures
            r@ == self@.name,
    {
        &self.name
    }

    /// Appends `middleware` at the end of the chain: it will run after every
    /// middleware registered before it and before the handler, on every
    /// subsequent dispatch.
    pub fn next(&mut self, middleware: M)
        ensures
            final(self)@ == (QueryHandlerManagerView {
                middlewares: old(self)@.middlewares.push(middleware),
                ..old(self)@
            }),
    {
        self.middlewares.push(middleware);
    }

    /// Runs the composed chain on `dispatched` and marks the result handled:
    /// having run a chain is definitionally "handled", whatever the
    /// middleware and the handler chose to do — in particular, a
    /// short-circuited envelope comes back marked handled too.
    #[verifier::loop_isolation(false)]
    pub fn handle(&self, dispatched: DispatchedQuery<P>) -> (r: DispatchedQuery<P>)
        ensures
            r@ == query_chain(self@.middlewares, self@.handler, dispatched@).with_handled(),
    {
        let mut env = dispatched;
        let mut i: usize = 0;
        proof {
            assert(self@.middlewares.skip(0) =~= self@.middlewares);
        }
        while i < self.middlewares.len()
            invariant
                i <= self.middlewares.len(),
                query_chain(self@.middlewares, self@.handler, dispatched@) == query_chain(
                    self@.middlewares.skip(i as int),
                    self@.handler,
                    env@,
                ),
            decreases self.middlewares.len() - i,
        {
            let ghost pre_env = env@;
            proof {
                assert(self@.middlewares.skip(i as int)[0] == self@.middlewares[i as int]);
                assert(self@.middlewares.skip(i as int).drop_first() =~= self@.middlewares.skip(
                    i as int + 1,
                ));
            }
            match self.middlewares[i].on_query(env) {
                MiddlewareFlow::Continue(e) => {
                    proof {
                        assert(query_chain(
                            self@.middlewares.skip(i as int),
                            self@.handler,
                            pre_env,
                        ) == query_chain(self@.middlewares.skip(i as int + 1), self@.handler, e@));
                    }
                    env = e;
                    i = i + 1;
                },
                MiddlewareFlow::ShortCircuit(e) => {
                    proof {
                        assert(query_chain(
                            self@.middlewares.skip(i as int),
                            self@.handler,
                            pre_env,
                        ) == e@);
                    }
                    let mut out = e;
                    out.mark_handled();
                    return out;
                },
            }
        }
        let mut out = self.handler.handle_query(env);
        out.mark_handled();
        out
    }

    /// Same as [`Self::handle`], but wraps the raw payload — whose declared
    /// type has type key `key` — in a fresh envelope first.
    pub fn handle_query(&self, query: P, key: u64) -> (r: DispatchedQuery<P>)
        ensures
            r@ == query_chain(
                self@.middlewares,
                self@.handler,
                DispatchedQueryView::fresh(query, key),
            ).with_handled(),
    {
        self.handle(DispatchedQuery::new(query, key))
    }
}

/// Law: middleware runs in registration order. When the first-registered
/// middleware continues with some envelope and the second-registered
/// middleware continues with another, the chain's result is the handler
/// applied to the second middleware's output — that is, the observed order is
/// first middleware, then second middleware, then the handler.
pub proof fn lemma_query_chain_runs_in_registration_order<
    P,
    H: QueryHandler<P>,
    M: QueryMiddleware<P>,
>(
    first: M,
    second: M,
    handler: H,
    env: DispatchedQueryView<P>,
    after_first: DispatchedQueryView<P>,
    after_second: DispatchedQueryView<P>,
)
    requires
        first.spec_on_query(env) == MiddlewareFlow::Continue(after_first),
        second.spec_on_query(after_first) == MiddlewareFlow::Continue(after_second),
    ensures
        query_chain(seq![first, second], handler, env) == handler.spec_handle(after_second),
{
    assert(seq![first, second].drop_first() =~= seq![second]);
    assert(seq![second].drop_first() =~= Seq::<M>::empty());
    assert(query_chain(seq![second], handler, after_first) == query_chain(
        Seq::<M>::empty(),
        handler,
        after_second,
    ));
}

/// Law: a middleware that short-circuits prevents everything after it. When
/// the first middleware of a chain short-circuits with some envelope, that
/// envelope is the chain's result, whatever middleware follow and whatever
/// the handler would have done; the manager still marks the result handled.
pub proof fn lemma_query_chain_short_circuits<P, H: QueryHandler<P>, M: QueryMiddleware<P>>(
    middlewares: Seq<M>,
    handler: H,
    env: DispatchedQueryView<P>,
    result: DispatchedQueryView<P>,
)
    requires
        middlewares.len() >= 1,
        middlewares[0].spec_on_query(env) == MiddlewareFlow::ShortCircuit(result),
    ensures
        query_chain(middlewares, handler, env) == result,
{
}

} // verus!
