//! The trace record kept around each inbound relay call: which method a span
//! covers, each backend call's duration and success as recorded events, and
//! the overall outcome the span closes with. Purely observational — it never
//! holds or alters a response; the surrounding driver exports it.

use vstd::prelude::*;
use crate::types::BackendId;

verus! {

/// The relay method a span covers.
#[derive(Clone, Copy, PartialEq, Eq, Structural, Debug)]
pub enum RelayMethod {
    ForkchoiceUpdated,
    GetPayload,
    NewPayload,
}

/// One recorded backend call: which backend, how long it took, and whether
/// it succeeded.
#[derive(Clone, Copy, PartialEq, Eq, Structural, Debug)]
pub struct BackendObservation {
    pub backend: BackendId,
    pub duration_ms: u64,
    pub ok: bool,
}

/// The abstract content of a span record.
#[verifier::ext_equal]
pub struct SpanView {
    pub method: RelayMethod,
    pub observations: Seq<BackendObservation>,
    pub outcome: Option<bool>,
}

/// A span around one inbound relay call.
pub struct SpanRecord {
    method: RelayMethod,
    observations: Vec<BackendObservation>,
    outcome: Option<bool>,
}

impl View for SpanRecord {
    type V = SpanView;

    closed spec fn view(&self) -> SpanView {
        SpanView {
            method: self.method,
            observations: self.observations@,
            outcome: self.outcome,
        }
    }
}

impl SpanRecord {
    /// Opens a span for one inbound call: no events yet, still unresolved.
    pub fn begin(method: RelayMethod) -> (s: SpanRecord)
        ensures
            s@.method == method,
            s@.observations =~= Seq::<BackendObservation>::empty(),
            s@.outcome is None,
    {
        SpanRecord { method, observations: Vec::new(), outcome: None }
    }

    /// Appends one backend call's duration and result; nothing else changes.
    pub fn observe_backend(&mut self, backend: BackendId, duration_ms: u64, ok: bool)
        ensures
            final(self)@.method == old(self)@.method,
            final(self)@.outcome == old(self)@.outcome,
            final(self)@.observations =~= old(self)@.observations.push(
                BackendObservation { backend, duration_ms, ok },
            ),
    {
        self.observations.push(BackendObservation { backend, duration_ms, ok });
    }

    /// Closes the span with the call's overall outcome; the events stay as
    /// recorded.
    pub fn finish(&mut self, ok: bool)
        ensures
            final(self)@.method == old(self)@.method,
            final(self)@.observations =~= old(self)@.observations,
            final(self)@.outcome == Some(ok),
    {
        self.outcome = Some(ok);
    }

    /// The recorded events, oldest first.
    pub fn observations(&self) -> (r: &Vec<BackendObservation>)
        ensures
            r@ =~= self@.observations,
    {
        &self.observations
    }

    /// The method this span covers.
    pub fn method(&self) -> (m: RelayMethod)
        ensures
            m == self@.method,
    {
        self.method
    }

    /// The outcome the span closed with, if it has closed.
    pub fn outcome(&self) -> (o: Option<bool>)
        ensures
            o == self@.outcome,
    {
        self.outcome
    }
}

} // verus!
