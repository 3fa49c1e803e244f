use vstd::prelude::*;

use crate::command::dispatched_command::DispatchedCommand;
use crate::command::dispatched_command::DispatchedCommandView;

verus! {

/// A command's terminal handler: the single consumer registered for one
/// payload type key.
///
/// The trait carries its own specification: `spec_handle` says, as a function
/// on envelope states, what the handler does to the envelope it is given, and
/// `handle_command` promises to behave exactly like it. Every contract the
/// bus states about a dispatch is relative to this promise; an implementation
/// outside verified code is not checked against it.
pub trait CommandHandler<P> {
    /// What handling does to the envelope, as a function on envelope states.
    spec fn spec_handle(&self, command: DispatchedCommandView<P>) -> DispatchedCommandView<P>;

    /// The display name the handler reports for itself, as the specification
    /// sees it. Handlers that do not care to be named may leave the default,
    /// the empty name.
    open spec fn spec_name(&self) -> Seq<char> {
        Seq::empty()
    }

    /// Handles the dispatched command and returns the envelope.
    fn handle_command(&self, command: DispatchedCommand<P>) -> (r: DispatchedCommand<P>)
        ensures
            r@ == self.spec_handle(command@),
    ;

    /// A display name for this handler.
    fn command_handler_name(&self) -> (r: String)
        ensures
            r@ == self.spec_name(),
    ;
}

} // verus!
