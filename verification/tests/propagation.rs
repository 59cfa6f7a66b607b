use blogpost_ffi::context::deserialize_context;
use blogpost_ffi::propagation::{extract_context, inject_context, RemoteSpan};
use opentelemetry::sdk::propagation::TraceContextPropagator;
use opentelemetry::trace::{
    SpanContext, SpanId, TraceContextExt, TraceFlags, TraceId, TraceState,
};
use opentelemetry::Context;
use std::str::FromStr;

fn remote(state: &str) -> SpanContext {
    SpanContext::new(
        TraceId::from_hex("4bf92f3577b34da6a3ce929d0e0e4736").unwrap(),
        SpanId::from_hex("00f067aa0ba902b7").unwrap(),
        TraceFlags::SAMPLED,
        true,
        TraceState::from_str(state).unwrap(),
    )
}

fn named(state: &str) -> RemoteSpan {
    RemoteSpan {
        trace_id: 0x4bf9_2f35_77b3_4da6_a3ce_929d_0e0e_4736,
        span_id: 0x00f0_67aa_0ba9_02b7,
        flags: 1,
        state: String::from(state),
    }
}

#[test]
fn injected_span_is_written_line_by_line() {
    let propagator = TraceContextPropagator::new();
    let text = inject_context(&propagator, &named("foo=bar"));
    let mut lines: Vec<&str> = text.split_terminator('\n').collect();
    lines.sort();
    assert_eq!(
        lines,
        vec![
            "traceparent;00-4bf92f3577b34da6a3ce929d0e0e4736-00f067aa0ba902b7-01",
            "tracestate;foo=bar",
        ]
    );
    assert!(text.ends_with('\n'));

    let fields = deserialize_context(&text);
    assert_eq!(fields.len(), 2);
    assert_eq!(
        fields.get("traceparent"),
        Some("00-4bf92f3577b34da6a3ce929d0e0e4736-00f067aa0ba902b7-01")
    );
    assert_eq!(fields.get("tracestate"), Some("foo=bar"));
}

#[test]
fn injected_span_is_what_the_propagator_writes_of_a_context() {
    let propagator = TraceContextPropagator::new();
    let context = Context::new().with_remote_span_context(remote("foo=bar"));
    let mut carrier = std::collections::HashMap::new();
    opentelemetry::propagation::TextMapPropagator::inject_context(
        &propagator,
        &context,
        &mut carrier,
    );
    let fields = deserialize_context(&inject_context(&propagator, &named("foo=bar")));
    assert_eq!(fields.len(), carrier.len());
    for (key, value) in &carrier {
        assert_eq!(fields.get(key), Some(value.as_str()));
    }
}

#[test]
fn span_with_a_zero_id_is_written_as_nothing() {
    let propagator = TraceContextPropagator::new();
    let mut span = named("foo=bar");
    span.trace_id = 0;
    assert_eq!(inject_context(&propagator, &span), "");
    let mut span = named("");
    span.span_id = 0;
    assert_eq!(inject_context(&propagator, &span), "");
}

#[test]
fn state_that_is_no_state_is_written_as_empty() {
    let propagator = TraceContextPropagator::new();
    let fields = deserialize_context(&inject_context(&propagator, &named("no state at all")));
    assert_eq!(fields.get("tracestate"), Some(""));
    assert_eq!(
        fields.get("traceparent"),
        Some("00-4bf92f3577b34da6a3ce929d0e0e4736-00f067aa0ba902b7-01")
    );
}

#[test]
fn flags_beyond_the_sampling_bit_are_not_written() {
    let propagator = TraceContextPropagator::new();
    let mut span = named("");
    span.flags = 0xff;
    let fields = deserialize_context(&inject_context(&propagator, &span));
    assert_eq!(
        fields.get("traceparent"),
        Some("00-4bf92f3577b34da6a3ce929d0e0e4736-00f067aa0ba902b7-01")
    );
}

#[test]
fn extracted_context_has_the_span_that_the_text_names() {
    let propagator = TraceContextPropagator::new();
    let text = "traceparent;00-4bf92f3577b34da6a3ce929d0e0e4736-00f067aa0ba902b7-01\ntracestate;foo=bar\n";
    assert_eq!(extract_context(&propagator, text), Some(named("foo=bar")));
}

#[test]
fn extracted_span_is_that_of_the_propagator() {
    let propagator = TraceContextPropagator::new();
    let text = "tracestate;foo=bar\ntraceparent;00-4bf92f3577b34da6a3ce929d0e0e4736-00f067aa0ba902b7-00\n";
    let found = extract_context(&propagator, text).unwrap();
    let rebuilt = SpanContext::new(
        TraceId::from(found.trace_id),
        SpanId::from(found.span_id),
        TraceFlags::new(found.flags),
        true,
        TraceState::from_str(&found.state).unwrap(),
    );
    let mut carrier = std::collections::HashMap::new();
    carrier.insert(
        String::from("traceparent"),
        String::from("00-4bf92f3577b34da6a3ce929d0e0e4736-00f067aa0ba902b7-00"),
    );
    carrier.insert(String::from("tracestate"), String::from("foo=bar"));
    let context = opentelemetry::propagation::TextMapPropagator::extract(&propagator, &carrier);
    assert_eq!(context.span().span_context(), &rebuilt);
    assert_eq!(found.flags, 0);
}

#[test]
fn span_crosses_as_text_and_comes_back() {
    let propagator = TraceContextPropagator::new();
    let text = inject_context(&propagator, &named(""));
    assert_eq!(extract_context(&propagator, &text), Some(named("")));
    let text = inject_context(&propagator, &named("a=b,c=d"));
    assert_eq!(extract_context(&propagator, &text), Some(named("a=b,c=d")));
}

#[test]
fn later_line_names_the_span() {
    let propagator = TraceContextPropagator::new();
    let text = "traceparent;00-00000000000000000000000000000001-0000000000000002-01\ntraceparent;00-4bf92f3577b34da6a3ce929d0e0e4736-00f067aa0ba902b7-01\n";
    assert_eq!(extract_context(&propagator, text), Some(named("")));
}

#[test]
fn text_without_a_trace_names_no_span() {
    let propagator = TraceContextPropagator::new();
    assert_eq!(extract_context(&propagator, "other;value\n"), None);
    assert_eq!(extract_context(&propagator, ""), None);
    assert_eq!(extract_context(&propagator, "traceparent;not-a-trace\n"), None);
    assert_eq!(
        extract_context(
            &propagator,
            "traceparent;00-00000000000000000000000000000000-00f067aa0ba902b7-01\n"
        ),
        None
    );
}

#[test]
fn span_with_a_zero_id_is_no_span() {
    assert_eq!(named("x=y").named(), Some(named("x=y")));
    let mut no_trace = named("");
    no_trace.trace_id = 0;
    assert_eq!(no_trace.named(), None);
    let mut no_span = named("");
    no_span.span_id = 0;
    assert_eq!(no_span.named(), None);
}
