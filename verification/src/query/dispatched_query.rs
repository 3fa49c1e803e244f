use vstd::prelude::*;

verus! {

/// The mathematical state of a query envelope: the payload slot, the
/// write-once result slot (a value together with the result's own type key),
/// the payload's type key, and whether a handler chain ran.
pub struct DispatchedQueryView<P> {
    /// The payload, present until it is taken.
    pub payload: Option<P>,
    /// The result slot: the value set by the handler, paired with the type
    /// key of the value's declared type. Empty until set, then write-once.
    pub value: Option<(P, u64)>,
    /// The type key of the payload's declared type, fixed at creation.
    pub key: u64,
    /// Whether a handler chain ran for this envelope.
    pub handled: bool,
}

impl<P> DispatchedQueryView<P> {
    /// The state of a freshly dispatched query: payload present, no result,
    /// not yet handled.
    pub open spec fn fresh(payload: P, key: u64) -> Self {
        DispatchedQueryView { payload: Some(payload), value: None, key, handled: false }
    }

    /// The state after the bus marks the envelope handled.
    pub open spec fn with_handled(self) -> Self {
        DispatchedQueryView { handled: true, ..self }
    }

    /// The payload as seen through a type-checked accessor asking for `key`:
    /// present exactly when the payload is still there and its type key is
    /// the requested one.
    pub open spec fn payload_for(self, key: u64) -> Option<P> {
        if self.key == key {
            self.payload
        } else {
            None
        }
    }

    /// The result as seen through a type-checked accessor asking for `key`:
    /// present exactly when a result was set and its type key is the
    /// requested one.
    pub open spec fn value_for(self, key: u64) -> Option<P> {
        match self.value {
            Some((v, value_key)) => if value_key == key {
                Some(v)
            } else {
                None
            },
            None => None,
        }
    }

    /// The state after an attempt to set the result to `value` with type key
    /// `value_key`: the slot is write-once, so the attempt only lands when
    /// the slot is still empty, and is dropped otherwise.
    pub open spec fn with_value(self, value: P, value_key: u64) -> Self {
        if self.value is Some {
            self
        } else {
            DispatchedQueryView { value: Some((value, value_key)), ..self }
        }
    }
}

/// The carrier that wraps one query payload during one dispatch, plus the
/// write-once slot for the answer the handler produces.
///
/// The payload's and the result's declared types are erased down to their
/// type keys; accessors take the caller's requested key and yield the value
/// exactly when the keys match, and absence otherwise — never a panic.
pub struct DispatchedQuery<P> {
    query: Option<P>,
    value: Option<(P, u64)>,
    key: u64,
    handled: bool,
}

impl<P> View for DispatchedQuery<P> {
    type V = DispatchedQueryView<P>;

    closed spec fn view(&self) -> DispatchedQueryView<P> {
        DispatchedQueryView {
            payload: self.query,
            value: self.value,
            key: self.key,
            handled: self.handled,
        }
    }
}

impl<P> DispatchedQuery<P> {
    /// Wraps `query`, whose declared type has type key `key`, in a fresh,
    /// unhandled envelope with an empty result slot.
    pub fn new(query: P, key: u64) -> (r: Self)
        ensures
            r@ == DispatchedQueryView::fresh(query, key),
    {
        DispatchedQuery { query: Some(query), value: None, key, handled: false }
    }

    /// A reference to the payload, present exactly when the payload is still
    /// there and was dispatched under `key`.
    pub fn the_query(&self, key: u64) -> (r: Option<&P>)
        ensures
            r is Some <==> self@.payload_for(key) is Some,
            r matches Some(p) ==> self@.payload_for(key) == Some(*p),
    {
        if self.key == key {
            self.query.as_ref()
        } else {
            None
        }
    }

    /// A mutable reference to the payload, present exactly when the payload
    /// is still there and was dispatched under `key`; middleware uses this to
    /// rewrite payload fields before the rest of the chain runs.
    pub fn the_query_mut(&mut self, key: u64) -> (r: Option<&mut P>)
        ensures
            old(self)@.payload_for(key) is None ==> r is None && final(self)@ == old(self)@,
            old(self)@.payload_for(key) is Some ==> {
                &&& r is Some
                &&& *r.unwrap() == old(self)@.payload.unwrap()
                &&& final(self)@ == (DispatchedQueryView {
                    payload: Some(*final(r.unwrap())),
                    ..old(self)@
                })
            },
    {
        if self.key == key {
            self.query.as_mut()
        } else {
            None
        }
    }

    /// Removes the payload from the envelope. The result is the payload
    /// exactly when it was still there and was dispatched under `key`; either
    /// way the slot is empty afterwards, so every later accessor — including
    /// a second take — yields absence.
    pub fn take_query(&mut self, key: u64) -> (r: Option<P>)
        ensures
            final(self)@ == (DispatchedQueryView { payload: None, ..old(self)@ }),
            r == old(self)@.payload_for(key),
    {
        match self.query.take() {
            Some(p) => {
                if self.key == key {
                    Some(p)
                } else {
                    None
                }
            },
            None => None,
        }
    }

    /// Writes the result slot with `value`, recording `value_key` as the type
    /// key of the value's declared type. The slot is write-once: when it is
    /// already occupied the write is dropped and the first-set value stays.
    /// The result reports whether the write landed, so a dropped write — a
    /// protocol violation, not a crash — is observable to the caller.
    pub fn set_value(&mut self, value: P, value_key: u64) -> (r: bool)
        ensures
            final(self)@ == old(self)@.with_value(value, value_key),
            r == (old(self)@.value is None),
    {
        if self.value.is_none() {
            self.value = Some((value, value_key));
            true
        } else {
            false
        }
    }

    /// A reference to the result, present exactly when a result was set and
    /// its declared type has key `key`.
    pub fn value(&self, key: u64) -> (r: Option<&P>)
        ensures
            r is Some <==> self@.value_for(key) is Some,
            r matches Some(p) ==> self@.value_for(key) == Some(*p),
    {
        match &self.value {
            Some((v, value_key)) => {
                if *value_key == key {
                    Some(v)
                } else {
                    None
                }
            },
            None => None,
        }
    }

    /// Removes the result from the envelope. The result of the call is the
    /// stored value exactly when one was set with type key `key`; either way
    /// the slot is empty afterwards, so every later read yields absence.
    pub fn take_value(&mut self, key: u64) -> (r: Option<P>)
        ensures
            final(self)@ == (DispatchedQueryView { value: None, ..old(self)@ }),
            r == old(self)@.value_for(key),
    {
        match self.value.take() {
            Some((v, value_key)) => {
                if value_key == key {
                    Some(v)
                } else {
                    None
                }
            },
            None => None,
        }
    }

    /// Whether a handler chain ran for this envelope.
    pub fn handled(&self) -> (r: bool)
        ensures
            r == self@.handled,
    {
        self.handled
    }

    /// The type key the payload was dispatched under.
    pub fn name(&self) -> (r: u64)
        ensures
            r == self@.key,
    {
        self.key
    }

    /// Whether the payload was dispatched under `key`.
    pub fn is(&self, key: u64) -> (r: bool)
        ensures
            r == (self@.key == key),
    {
        self.key == key
    }

    /// Whether a result was set and its declared type has key `key` — a type
    /// check without unwrapping, for middleware that branches on the result's
    /// shape.
    pub fn value_type_is(&self, key: u64) -> (r: bool)
        ensures
            r == (self@.value matches Some((_, value_key)) && value_key == key),
    {
        match &self.value {
            Some((_, value_key)) => *value_key == key,
            None => false,
        }
    }

    /// Marks the envelope handled; only the manager does this, after its
    /// chain ran.
    pub(crate) fn mark_handled(&mut self)
        ensures
            final(self)@ == old(self)@.with_handled(),
    {
        self.handled = true;
    }
}

/// Law: the result slot is write-once and type-checked. Setting a value into
/// an empty slot makes it readable under exactly the type key it was set
/// with — any other key sees absence — and every later set attempt, whatever
/// value or key it carries, leaves the envelope unchanged.
pub proof fn lemma_query_value_write_once<P>(
    env: DispatchedQueryView<P>,
    value: P,
    value_key: u64,
    other_key: u64,
)
    requires
        env.value is None,
        other_key != value_key,
    ensures
        env.with_value(value, value_key).value_for(value_key) == Some(value),
        env.with_value(value, value_key).value_for(other_key) is None,
        forall|v2: P, k2: u64|
            #[trigger] env.with_value(value, value_key).with_value(v2, k2) == env.with_value(
                value,
                value_key,
            ),
{
}

/// Law: taking the payload is one-shot. Once the payload slot is empty, the
/// type-checked accessor yields absence for every requested key, so a second
/// take — or any later read — returns nothing.
pub proof fn lemma_taken_query_payload_is_gone<P>(env: DispatchedQueryView<P>, key: u64)
    ensures
        (DispatchedQueryView { payload: None, ..env }).payload_for(key) is None,
{
}

} // verus!
