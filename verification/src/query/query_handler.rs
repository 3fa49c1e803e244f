use vstd::prelude::*;

use crate::query::dispatched_query::DispatchedQuery;
use crate::query::dispatched_query::DispatchedQueryView;

verus! {

/// A query's terminal handler: the single consumer registered for one payload
/// type key, expected to write the envelope's result slot.
///
/// The trait carries its own specification: `spec_handle` says, as a function
/// on envelope states, what the handler does to the envelope it is given, and
/// `handle_query` promises to behave exactly like it. Every contract the bus
/// states about a dispatch is relative to this promise; an implementation
/// outside verified code is not checked against it.
pub trait QueryHandler<P> {
    /// What handling does to the envelope, as a function on envelope states.
    spec fn spec_handle(&self, query: DispatchedQueryView<P>) -> DispatchedQueryView<P>;

    /// The display name the handler reports for itself, as the specification
    /// sees it. Handlers that do not care to be named may leave the default,
    /// the empty name.
    open spec fn spec_name(&self) -> Seq<char> {
        Seq::empty()
    }

    /// Handles the dispatched query and returns the envelope.
    fn handle_query(&self, query: DispatchedQuery<P>) -> (r: DispatchedQuery<P>)
        ensures
            r@ == self.spec_handle(query@),
    ;

    /// A display name for this handler.
    fn query_handler_name(&self) -> (r: String)
        ensures
            r@ == self.spec_name(),
    ;
}

} // verus!
