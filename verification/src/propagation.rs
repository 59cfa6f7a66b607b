//! A span on its way across the boundary: the propagator turns it into a
//! flat mapping, which crosses as text, and reads from the mapping that
//! comes back the span under which the work goes on.

use std::collections::HashMap;
use vstd::prelude::*;
use std::str::FromStr;
use opentelemetry::propagation::TextMapPropagator;
use opentelemetry::sdk::propagation::TraceContextPropagator;
use opentelemetry::trace::{SpanContext, SpanId, TraceContextExt, TraceFlags, TraceId, TraceState};
use opentelemetry::Context;
use crate::context::{
    decoded,
    deserialize_context,
    encoded,
    lemma_put_all_fresh,
    serialize_context,
};
use crate::metadata::{as_map, distinct_keys, pairs_of, Entry, MetadataMap};

verus! {

/// `opentelemetry::sdk::propagation::TraceContextPropagator`: the propagator
/// of the W3C trace context.
#[verifier::external_type_specification]
#[verifier::external_body]
pub struct ExTraceContextPropagator(TraceContextPropagator);

/// A span as it crosses the boundary, to be the parent of the work on the
/// other side: the ids of its trace and of the span itself, the trace's
/// flags and the vendors' state, as the header `tracestate` holds it.
#[derive(Clone, Debug, PartialEq, Eq)]
pub struct RemoteSpan {
    pub trace_id: u128,
    pub span_id: u64,
    pub flags: u8,
    pub state: String,
}

impl View for RemoteSpan {
    type V = (u128, u64, u8, Seq<char>);

    /// The ids, the flags and the characters of the state.
    open spec fn view(&self) -> (u128, u64, u8, Seq<char>) {
        (self.trace_id, self.span_id, self.flags, self.state@)
    }
}

/// Whether the ids name a span: neither that of the trace nor that of the
/// span is zero.
pub open spec fn names_a_span(found: (u128, u64, u8, Seq<char>)) -> bool {
    found.0 != 0 && found.1 != 0
}

impl RemoteSpan {
    /// The span, if its ids name one.
    pub fn named(self) -> (span: Option<RemoteSpan>)
        ensures
            span is Some <==> names_a_span(self@),
            span is Some ==> span->0 == self,
    {
        if self.trace_id != 0 && self.span_id != 0 {
            Some(self)
        } else {
            None
        }
    }
}

/// What the propagator of the W3C trace context reads from a mapping that is
/// given as its entries, a later entry of a key in place of an earlier: the
/// ids, flags and state of the span context in the context that
/// `TextMapPropagator::extract_with_context` makes of an empty context.
pub uninterp spec fn extraction(fields: Seq<(Seq<char>, Seq<char>)>) -> (u128, u64, u8, Seq<char>);

/// `TextMapPropagator::extract_with_context` on an empty context and a
/// `HashMap` that holds `fields`, and the span context of what it makes, field
/// by field. The propagator has no state and reads nothing but the mapping,
/// so the result is `extraction` of the entries. A mapping that names no span
/// leaves the context empty, whose span context has both ids zero.
#[verifier::external_body]
fn extracted_span(propagator: &TraceContextPropagator, fields: &Vec<(String, String)>) -> (span:
    RemoteSpan)
    ensures
        span@ == extraction(pairs_of(fields@)),
{
    let carrier: HashMap<String, String> = fields.iter().cloned().collect();
    let context = propagator.extract_with_context(&Context::new(), &carrier);
    let span = context.span();
    let found = span.span_context();
    RemoteSpan {
        trace_id: u128::from_be_bytes(found.trace_id().to_bytes()),
        span_id: u64::from_be_bytes(found.span_id().to_bytes()),
        flags: found.trace_flags().to_u8(),
        state: found.trace_state().header(),
    }
}

/// What the propagator of the W3C trace context writes for a span that is
/// given by its ids, flags and state: the mapping that
/// `TextMapPropagator::inject_context` fills for a context with that span.
pub uninterp spec fn injection(span: (u128, u64, u8, Seq<char>)) -> Map<Seq<char>, Seq<char>>;

/// `TextMapPropagator::inject_context` into an empty `HashMap`, for a context
/// that holds `span` and nothing else; a state that `TraceState::from_str`
/// refuses counts as empty. The propagator has no state and reads nothing
/// but the span, so the mapping is `injection` of the span. Its entries are
/// handed back in the order in which the map gives them, which differs from
/// run to run; no key comes twice.
#[verifier::external_body]
fn injected_fields(propagator: &TraceContextPropagator, span: &RemoteSpan) -> (fields: Vec<
    (String, String),
>)
    ensures
        distinct_keys(pairs_of(fields@)),
        as_map(pairs_of(fields@)) == injection(span@),
{
    let state = TraceState::from_str(span.state.as_str()).unwrap_or_default();
    let flags = TraceFlags::new(span.flags);
    let found =
        SpanContext::new(TraceId::from(span.trace_id), SpanId::from(span.span_id), flags, true, state);
    let context = Context::new().with_remote_span_context(found);
    let mut carrier: HashMap<String, String> = HashMap::new();
    propagator.inject_context(&context, &mut carrier);
    carrier.into_iter().collect()
}

/// Writes what `propagator` carries of `span` as text: the mapping that the
/// propagator gives for the span, one line for each entry. The order of the
/// lines is that in which the propagator's map hands its entries out.
pub fn inject_context(propagator: &TraceContextPropagator, span: &RemoteSpan) -> (text: String)
    ensures
        exists|fields: Seq<Entry>|
            distinct_keys(fields) && as_map(fields) == injection(span@) && text@
                == #[trigger] encoded(fields),
{
    let entries = injected_fields(propagator, span);
    proof {
        let pairs = pairs_of(entries@);
        assert(Seq::<Entry>::empty() + pairs =~= pairs);
        lemma_put_all_fresh(Seq::empty(), pairs);
    }
    let fields = MetadataMap::from_entries(entries);
    serialize_context(&fields)
}

/// Reads the mapping that `text` stands for and has `propagator` read the
/// span that it names. A text that names none gives none.
pub fn extract_context(propagator: &TraceContextPropagator, text: &str) -> (span: Option<
    RemoteSpan,
>)
    ensures
        span is Some <==> names_a_span(extraction(decoded(text@))),
        span is Some ==> span->0@ == extraction(decoded(text@)),
{
    let fields = deserialize_context(text);
    let entries = fields.to_entries();
    extracted_span(propagator, &entries).named()
}

} // verus!
