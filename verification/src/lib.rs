//! An in-process command and query dispatch bus.
//!
//! Independent modules define *commands* (fire-and-forget intents) and
//! *queries* (requests expecting a typed answer), attach exactly one handler
//! per payload type key, optionally interpose an ordered chain of middleware
//! around that handler, and dispatch payload instances without the bus
//! knowing the handler's concrete type.
//!
//! A payload type is identified by a *type key*: an opaque `u64` that the
//! caller's runtime derives once per declared type, such that two values of
//! the same declared type always carry the same key and two distinct declared
//! types never collide. How the key is derived is outside this crate; every
//! operation takes the key alongside the payload.

use vstd::prelude::*;

mod busstop;
mod command;
mod query;

pub use crate::busstop::Busstop;
pub use crate::busstop::DuplicateHandlerError;
pub use crate::busstop::lemma_dispatch_query_runs_middleware_in_registration_order;
pub use crate::busstop::lemma_dispatch_query_short_circuits;
pub use crate::command::CommandHandler;
pub use crate::command::CommandHandlerManager;
pub use crate::command::CommandHandlerManagerView;
pub use crate::command::CommandMiddleware;
pub use crate::command::DispatchedCommand;
pub use crate::command::DispatchedCommandView;
pub use crate::command::command_chain;
pub use crate::command::lemma_command_chain_runs_in_registration_order;
pub use crate::command::lemma_command_chain_short_circuits;
pub use crate::command::lemma_taken_command_payload_is_gone;
pub use crate::query::DispatchedQuery;
pub use crate::query::DispatchedQueryView;
pub use crate::query::QueryHandler;
pub use crate::query::QueryHandlerManager;
pub use crate::query::QueryHandlerManagerView;
pub use crate::query::QueryMiddleware;
pub use crate::query::lemma_query_chain_runs_in_registration_order;
pub use crate::query::lemma_query_chain_short_circuits;
pub use crate::query::lemma_query_value_write_once;
pub use crate::query::lemma_taken_query_payload_is_gone;
pub use crate::query::query_chain;

verus! {

/// What a middleware hands back for the rest of the chain.
///
/// Returning [`MiddlewareFlow::Continue`] passes the envelope on to the next
/// middleware (or, at the end of the chain, to the terminal handler);
/// returning [`MiddlewareFlow::ShortCircuit`] stops the chain right here, so
/// that neither the later middleware nor the handler run at all.
pub enum MiddlewareFlow<E> {
    /// Hand the envelope to the rest of the chain.
    Continue(E),
    /// Stop the chain; the envelope is the final result.
    ShortCircuit(E),
}

impl<E: View> View for MiddlewareFlow<E> {
    type V = MiddlewareFlow<E::V>;

    open spec fn view(&self) -> MiddlewareFlow<E::V> {
        match self {
            MiddlewareFlow::Continue(e) => MiddlewareFlow::Continue(e@),
            MiddlewareFlow::ShortCircuit(e) => MiddlewareFlow::ShortCircuit(e@),
        }
    }
}

} // verus!
