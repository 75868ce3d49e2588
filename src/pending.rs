use vstd::prelude::*;

verus! {

/// A value tagged with the identifier of the logical operation it belongs to
/// and with the pause, in milliseconds, to observe before acting on it.
#[derive(Clone, Debug)]
pub struct Pending<T> {
    pub request_id: u128,
    pub data: T,
    pub delay_ms: u64,
}

/// Relies on uuid::Uuid::new_v4: a random version-4 identifier, read as
/// its 128-bit value. Nothing is known of which value comes back.
#[verifier::external_body]
pub(crate) fn fresh_request_id() -> (r: u128) {
    uuid::Uuid::new_v4().as_u128()
}

impl<T> Pending<T> {
    /// Wraps `data` under a freshly drawn identifier, with no delay.
    pub fn new(data: T) -> (r: Self)
        ensures
            r.data == data,
            r.delay_ms == 0,
    {
        Pending { request_id: fresh_request_id(), data, delay_ms: 0 }
    }

    pub fn with_delay(self, delay_ms: u64) -> (r: Self)
        ensures
            r.request_id == self.request_id,
            r.data == self.data,
            r.delay_ms == delay_ms,
    {
        Pending { request_id: self.request_id, data: self.data, delay_ms }
    }

    /// Keeps the identifier and the delay and replaces the payload: used to
    /// turn a request into its response.
    pub fn map_data<U>(self, data: U) -> (r: Pending<U>)
        ensures
            r.request_id == self.request_id,
            r.data == data,
            r.delay_ms == self.delay_ms,
    {
        Pending { request_id: self.request_id, data, delay_ms: self.delay_ms }
    }

    /// The envelope of an operation that already has an identifier.
    pub fn from_parts(request_id: u128, data: T) -> (r: Self)
        ensures
            r.request_id == request_id,
            r.data == data,
            r.delay_ms == 0,
    {
        Pending { request_id, data, delay_ms: 0 }
    }
}

impl<T: Default> Default for Pending<T> {
    /// The default payload under a freshly drawn identifier.
    fn default() -> (r: Self)
        ensures
            r.delay_ms == 0,
    {
        Pending::new(T::default())
    }
}

impl<T> From<(u128, T)> for Pending<T> {
    fn from(parts: (u128, T)) -> (r: Self) {
        Pending { request_id: parts.0, data: parts.1, delay_ms: 0 }
    }
}

impl<T> vstd::std_specs::convert::FromSpecImpl<(u128, T)> for Pending<T> {
    open spec fn obeys_from_spec() -> bool {
        true
    }

    open spec fn from_spec(parts: (u128, T)) -> Self {
        Pending { request_id: parts.0, data: parts.1, delay_ms: 0 }
    }
}

} // verus!
