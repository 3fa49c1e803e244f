mod command_handler;
mod dispatched_command;

use core::marker::PhantomData;
use vstd::prelude::*;

pub use command_handler::CommandHandler;
pub use dispatched_command::DispatchedCommand;
pub use dispatched_command::DispatchedCommandView;
pub use dispatched_command::lemma_taken_command_payload_is_gone;

use crate::MiddlewareFlow;

verus! {

/// A middleware interposed around a command handler. Each dispatch hands the
/// middleware the envelope; the middleware either continues the chain with an
/// (optionally rewritten) envelope or short-circuits, in which case neither
/// the later middleware nor the handler run.
///
/// The trait carries its own specification: `spec_on_command` says, as a
/// function on envelope states, what the middleware decides, and `on_command`
/// promises to behave exactly like it. Every contract the bus states about a
/// dispatch is relative to this promise; an implementation outside verified
/// code is not checked against it.
pub trait CommandMiddleware<P> {
    /// What the middleware decides, as a function on envelope states.
    spec fn spec_on_command(&self, command: DispatchedCommandView<P>) -> MiddlewareFlow<
        DispatchedCommandView<P>,
    >;

    /// Inspect the envelope and either continue the chain or short-circuit.
    fn on_command(&self, command: DispatchedCommand<P>) -> (r: MiddlewareFlow<
        DispatchedCommand<P>,
    >)
        ensures
            r@ == self.spec_on_command(command@),
    ;
}

/// The envelope state produced by running `middlewares` in order — first
/// element first — around the terminal `handler`, starting from `env`. A
/// middleware that continues hands its envelope to the rest of the chain,
/// which falls through to the handler at the end; a middleware that
/// short-circuits makes its envelope the result, and nothing after it runs.
pub open spec fn command_chain<P, H: CommandHandler<P>, M: CommandMiddleware<P>>(
    middlewares: Seq<M>,
    handler: H,
    env: DispatchedCommandView<P>,
) -> DispatchedCommandView<P>
    decreases middlewares.len(),
{
    if middlewares.len() == 0 {
        handler.spec_handle(env)
    } else {
        match middlewares[0].spec_on_command(env) {
            MiddlewareFlow::Continue(e) => command_chain(middlewares.drop_first(), handler, e),
            MiddlewareFlow::ShortCircuit(e) => e,
        }
    }
}

/// The mathematical state of a command handler manager: its display name, the
/// terminal handler, and the middleware chain in registration order.
pub struct CommandHandlerManagerView<H, M> {
    /// The display name the handler reported at registration time.
    pub name: Seq<char>,
    /// The terminal handler.
    pub handler: H,
    /// The middleware, first-registered first.
    pub middlewares: Seq<M>,
}

/// Binds one terminal command handler to an ordered list of middleware and
/// composes them into a single `Envelope -> Envelope` operation: the
/// first-registered middleware observes the envelope first and is the only
/// one that can keep the whole rest of the chain from running.
pub struct CommandHandlerManager<P, H, M> {
    name: String,
    handler: H,
    middlewares: Vec<M>,
    payload: PhantomData<P>,
}

impl<P, H, M> View for CommandHandlerManager<P, H, M> {
    type V = CommandHandlerManagerView<H, M>;

    closed spec fn view(&self) -> CommandHandlerManagerView<H, M> {
        CommandHandlerManagerView {
            name: self.name@,
            handler: self.handler,
            middlewares: self.middlewares@,
        }
    }
}

impl<P, H: CommandHandler<P>, M: CommandMiddleware<P>> CommandHandlerManager<P, H, M> {
    /// A manager wrapping `handler`, with no middleware yet and the name the
    /// handler reports for itself.
    pub fn new(handler: H) -> (r: Self)
        ensures
            r@.name == handler.spec_name(),
            r@.handler == handler,
            r@.middlewares == Seq::<M>::empty(),
    {
        let name = handler.command_handler_name();
        CommandHandlerManager { name, handler, middlewares: Vec::new(), payload: PhantomData }
    }

    /// The display name of the wrapped handler.
    pub fn name(&self) -> (r: &String)
        ensures
            r@ == self@.name,
    {
        &self.name
    }

    /// Appends `middleware` at the end of the chain: it will run after every
    /// middleware registered before it and before the handler, on every
    /// subsequent dispatch.
    pub fn next(&mut self, middleware: M)
        ensures
            final(self)@ == (CommandHandlerManagerView {
                middlewares: old(self)@.middlewares.push(middleware),
                ..old(self)@
            }),
    {
        self.middlewares.push(middleware);
    }

    /// Runs the composed chain on `dispatched` and marks the result handled:
    /// having run a chain is definitionally "handled", whatever the
    /// middleware and the handler chose to do — in particular, a
    /// short-circuited envelope comes back marked handled too.
    #[verifier::loop_isolation(false)]
    pub fn handle(&self, dispatched: DispatchedCommand<P>) -> (r: DispatchedCommand<P>)
        ensures
            r@ == command_chain(self@.middlewares, self@.handler, dispatched@).with_handled(),
    {
        let mut env = dispatched;
        let mut i: usize = 0;
        proof {
            assert(self@.middlewares.skip(0) =~= self@.middlewares);
        }
        while i < self.middlewares.len()
            invariant
                i <= self.middlewares.len(),
                command_chain(self@.middlewares, self@.handler, dispatched@) == command_chain(
                    self@.middlewares.skip(i as int),
                    self@.handler,
                    env@,
                ),
            decreases self.middlewares.len() - i,
        {
            let ghost pre_env = env@;
            proof {
                assert(self@.middlewares.skip(i as int)[0] == self@.middlewares[i as int]);
                assert(self@.middlewares.skip(i as int).drop_first() =~= self@.middlewares.skip(
                    i as int + 1,
                ));
            }
            match self.middlewares[i].on_command(env) {
                MiddlewareFlow::Continue(e) => {
                    proof {
                        assert(command_chain(
                            self@.middlewares.skip(i as int),
                            self@.handler,
                            pre_env,
                        ) == command_chain(
                            self@.middlewares.skip(i as int + 1),
                            self@.handler,
                            e@,
                        ));
                    }
                    env = e;
                    i = i + 1;
                },
                MiddlewareFlow::ShortCircuit(e) => {
                    proof {
                        assert(command_chain(
                            self@.middlewares.skip(i as int),
                            self@.handler,
                            pre_env,
                        ) == e@);
                    }
                    let mut out = e;
                    out.mark_handled();
                    return out;
                },
            }
        }
        let mut out = self.handler.handle_command(env);
        out.mark_handled();
        out
    }

    /// Same as [`Self::handle`], but wraps the raw payload — whose declared
    /// type has type key `key` — in a fresh envelope first.
    pub fn handle_command(&self, command: P, key: u64) -> (r: DispatchedCommand<P>)
        ensures
            r@ == command_chain(
                self@.middlewares,
                self@.handler,
                DispatchedCommandView::fresh(command, key),
            ).with_handled(),
    {
        self.handle(DispatchedCommand::new(command, key))
    }
}

/// Law: middleware runs in registration order. When the first-registered
/// middleware continues with some envelope and the second-registered
/// middleware continues with another, the chain's result is the handler
/// applied to the second middleware's output — that is, the observed order is
/// first middleware, then second middleware, then the handler.
pub proof fn lemma_command_chain_runs_in_registration_order<
    P,
    H: CommandHandler<P>,
    M: CommandMiddleware<P>,
>(
    first: M,
    second: M,
    handler: H,
    env: DispatchedCommandView<P>,
    after_first: DispatchedCommandView<P>,
    after_second: DispatchedCommandView<P>,
)
    requires
        first.spec_on_command(env) == MiddlewareFlow::Continue(after_first),
        second.spec_on_command(after_first) == MiddlewareFlow::Continue(after_second),
    ensures
        command_chain(seq![first, second], handler, env) == handler.spec_handle(after_second),
{
    assert(seq![first, second].drop_first() =~= seq![second]);
    assert(seq![second].drop_first() =~= Seq::<M>::empty());
    assert(command_chain(seq![second], handler, after_first) == command_chain(
        Seq::<M>::empty(),
        handler,
        after_second,
    ));
}

/// Law: a middleware that short-circuits prevents everything after it. When
/// the first middleware of a chain short-circuits with some envelope, that
/// envelope is the chain's result, whatever middleware follow and whatever
/// the handler would have done; the manager still marks the result handled.
pub proof fn lemma_command_chain_short_circuits<
    P,
    H: CommandHandler<P>,
    M: CommandMiddleware<P>,
>(
    middlewares: Seq<M>,
    handler: H,
    env: DispatchedCommandView<P>,
    result: DispatchedCommandView<P>,
)
    requires
        middlewares.len() >= 1,
        middlewares[0].spec_on_command(env) == MiddlewareFlow::ShortCircuit(result),
    ensures
        command_chain(middlewares, handler, env) == result,
{
}

} // verus!
