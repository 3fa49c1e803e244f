use vstd::prelude::*;

verus! {

/// The mathematical state of a command envelope: the payload slot, the
/// payload's type key, and whether a handler chain ran for the envelope.
pub struct DispatchedCommandView<P> {
    /// The payload, present until it is taken.
    pub payload: Option<P>,
    /// The type key of the payload's declared type, fixed at creation.
    pub key: u64,
    /// Whether a handler chain ran for this envelope.
    pub handled: bool,
}

impl<P> DispatchedCommandView<P> {
    /// The state of a freshly dispatched command: payload present, not yet
    /// handled.
    pub open spec fn fresh(payload: P, key: u64) -> Self {
        DispatchedCommandView { payload: Some(payload), key, handled: false }
    }

    /// The state after the bus marks the envelope handled.
    pub open spec fn with_handled(self) -> Self {
        DispatchedCommandView { handled: true, ..self }
    }

    /// The payload as seen through a type-checked accessor asking for `key`:
    /// present exactly when the payload is still there and its type key is
    /// the requested one.
    pub open spec fn payload_for(self, key: u64) -> Option<P> {
        if self.key == key {
            self.payload
        } else {
            None
        }
    }
}

/// The carrier that wraps one command payload during one dispatch.
///
/// The payload's declared type is erased down to its type key; accessors take
/// the caller's requested key and yield the payload exactly when the keys
/// match, and absence otherwise — never a panic.
pub struct DispatchedCommand<P> {
    inner: Option<P>,
    handled: bool,
    key: u64,
}

impl<P> View for DispatchedCommand<P> {
    type V = DispatchedCommandView<P>;

    closed spec fn view(&self) -> DispatchedCommandView<P> {
        DispatchedCommandView { payload: self.inner, key: self.key, handled: self.handled }
    }
}

impl<P> DispatchedCommand<P> {
    /// Wraps `inner`, whose declared type has type key `key`, in a fresh,
    /// unhandled envelope.
    pub fn new(inner: P, key: u64) -> (r: Self)
        ensures
            r@ == DispatchedCommandView::fresh(inner, key),
    {
        DispatchedCommand { inner: Some(inner), handled: false, key }
    }

    /// A reference to the payload, present exactly when the payload is still
    /// there and was dispatched under `key`.
    pub fn the_command(&self, key: u64) -> (r: Option<&P>)
        ensures
            r is Some <==> self@.payload_for(key) is Some,
            r matches Some(p) ==> self@.payload_for(key) == Some(*p),
    {
        if self.key == key {
            self.inner.as_ref()
        } else {
            None
        }
    }

    /// A mutable reference to the payload, present exactly when the payload
    /// is still there and was dispatched under `key`; middleware uses this to
    /// rewrite payload fields before the rest of the chain runs.
    pub fn the_command_mut(&mut self, key: u64) -> (r: Option<&mut P>)
        ensures
            old(self)@.payload_for(key) is None ==> r is None && final(self)@ == old(self)@,
            old(self)@.payload_for(key) is Some ==> {
                &&& r is Some
                &&& *r.unwrap() == old(self)@.payload.unwrap()
                &&& final(self)@ == (DispatchedCommandView {
                    payload: Some(*final(r.unwrap())),
                    ..old(self)@
                })
            },
    {
        if self.key == key {
            self.inner.as_mut()
        } else {
            None
        }
    }

    /// Removes the payload from the envelope. The result is the payload
    /// exactly when it was still there and was dispatched under `key`; either
    /// way the slot is empty afterwards, so every later accessor — including
    /// a second take — yields absence.
    pub fn take_command(&mut self, key: u64) -> (r: Option<P>)
        ensures
            final(self)@ == (DispatchedCommandView { payload: None, ..old(self)@ }),
            r == old(self)@.payload_for(key),
    {
        match self.inner.take() {
            Some(p) => {
                if self.key == key {
                    Some(p)
                } else {
                    None
                }
            },
            None => None,
        }
    }

    /// Whether a handler chain ran for this envelope.
    pub fn handled(&self) -> (r: bool)
        ensures
            r == self@.handled,
    {
        self.handled
    }

    /// The type key the payload was dispatched under.
    pub fn name(&self) -> (r: u64)
        ensures
            r == self@.key,
    {
        self.key
    }

    /// Whether the payload was dispatched under `key`.
    pub fn is(&self, key: u64) -> (r: bool)
        ensures
            r == (self@.key == key),
    {
        self.key == key
    }

    /// Marks the envelope handled; only the manager does this, after its
    /// chain ran.
    pub(crate) fn mark_handled(&mut self)
        ensures
            final(self)@ == old(self)@.with_handled(),
    {
        self.handled = true;
    }
}

/// Law: taking the payload is one-shot. Once the payload slot is empty, the
/// type-checked accessor yields absence for every requested key, so a second
/// take — or any later read — returns nothing.
pub proof fn lemma_taken_command_payload_is_gone<P>(env: DispatchedCommandView<P>, key: u64)
    ensures
        (DispatchedCommandView { payload: None, ..env }).payload_for(key) is None,
{
}

} // verus!
