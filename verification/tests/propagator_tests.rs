use cloud_trace_context::DecodeError;
use cloud_trace_context::GoogleTraceContextPropagator;
use cloud_trace_context::TraceContext;
use cloud_trace_context::header_name;
use cloud_trace_context::header_value_matches_grammar;

#[test]
fn test_google_propagation_header_value_regex_str_valid() {
    let valid_string = "105445aa7843bc8bf206b12000100000/1;o=1";
    assert!(
        header_value_matches_grammar(valid_string),
        "grammar does not match known valid string"
    );
}

#[test]
fn test_extract_span_context_valid() {
    let propagator = GoogleTraceContextPropagator::new();
    let header_value = "105445aa7843bc8bf206b12000100000/1;o=1";

    let span_context = propagator.extract_span_context(Some(header_value)).unwrap();
    assert_eq!(
        format!("{:x}", span_context.trace_id),
        "105445aa7843bc8bf206b12000100000"
    );
    assert_eq!(span_context.span_id, 1);
    assert!(span_context.sampled);
}

#[test]
fn test_extract_span_context_valid_without_options() {
    let propagator = GoogleTraceContextPropagator::new();
    let header_value = "105445aa7843bc8bf206b12000100000/1";

    let span_context = propagator.extract_span_context(Some(header_value)).unwrap();
    assert_eq!(
        format!("{:x}", span_context.trace_id),
        "105445aa7843bc8bf206b12000100000"
    );
    assert_eq!(span_context.span_id, 1);
    assert!(span_context.sampled);
}

#[test]
fn test_extract_span_context_valid_not_sampled() {
    let propagator = GoogleTraceContextPropagator::new();
    let header_value = "105445aa7843bc8bf206b12000100000/1;o=0";

    let span_context = propagator.extract_span_context(Some(header_value)).unwrap();
    assert_eq!(
        format!("{:x}", span_context.trace_id),
        "105445aa7843bc8bf206b12000100000"
    );
    assert_eq!(span_context.span_id, 1);
    assert!(!span_context.sampled);
}

#[test]
fn test_extract_span_context_invalid() {
    let propagator = GoogleTraceContextPropagator::new();

    assert!(propagator.extract_span_context(None).is_err());
}

#[test]
fn test_inject_context_valid() {
    let propagator = GoogleTraceContextPropagator::new();
    let cx = TraceContext::new(
        u128::from_str_radix("105445aa7843bc8bf206b12000100000", 16).unwrap(),
        u64::from_be_bytes([0, 0, 0, 0, 0, 0, 0, 1]),
        true,
    );

    let header_value = propagator.inject_context(Some(&cx));
    assert_eq!(
        header_value,
        Some("105445aa7843bc8bf206b12000100000/1;o=1".to_string())
    );
}

#[test]
fn test_extract_with_context_valid() {
    let propagator = GoogleTraceContextPropagator::new();
    let header_value = "105445aa7843bc8bf206b12000100000/1;o=1";

    let new_cx = propagator.extract_with_context(None, Some(header_value));
    assert!(new_cx.unwrap().is_valid());
}

#[test]
fn test_extract_with_context_invalid_trace_id() {
    let propagator = GoogleTraceContextPropagator::new();
    // This trace ID is shorter than 32 characters
    let header_value = "105445aa7843bc8b/1;o=1";

    let new_cx = propagator.extract_with_context(None, Some(header_value));
    // No remote context was extracted
    assert!(new_cx.is_none());
}

#[test]
fn test_extract_with_context_invalid_span_id() {
    let propagator = GoogleTraceContextPropagator::new();
    // This span id is not decimal
    let header_value = "105445aa7843bc8b/1abc;o=1";

    let new_cx = propagator.extract_with_context(None, Some(header_value));
    // No remote context was extracted
    assert!(new_cx.is_none());
}

#[test]
fn round_trip_reconstructs_context() {
    let propagator = GoogleTraceContextPropagator::new();
    let contexts = [
        TraceContext::new(1, 1, true),
        TraceContext::new(0x105445aa7843bc8bf206b12000100000, 42, false),
        TraceContext::new(u128::MAX, u64::MAX, true),
    ];
    for cx in contexts {
        let header_value = propagator.inject_context(Some(&cx)).unwrap();
        let decoded = propagator
            .extract_span_context(Some(header_value.as_str()))
            .unwrap();
        assert_eq!(decoded, cx);
    }
}

#[test]
fn grammar_rejection_never_yields_a_context() {
    let propagator = GoogleTraceContextPropagator::new();
    let malformed = [
        // fewer than 32 hex digits
        "105445aa7843bc8b/1;o=1",
        // non-decimal span id
        "105445aa7843bc8bf206b12000100000/x;o=1",
        // extra characters after the flag digit
        "105445aa7843bc8bf206b12000100000/1;o=11",
        // uppercase hex is not canonical
        "105445AA7843BC8BF206B12000100000/1;o=1",
        // missing span id
        "105445aa7843bc8bf206b12000100000/",
        // 21 span digits exceed the grammar
        "105445aa7843bc8bf206b12000100000/123456789012345678901",
        // whitespace inside the value
        "105445aa7843bc8bf206b12000100000 /1",
        "",
    ];
    for value in malformed {
        assert_eq!(
            propagator.extract_span_context(Some(value)),
            Err(DecodeError::Malformed),
            "{value:?} should be rejected as malformed"
        );
    }
}

#[test]
fn default_sampling_without_suffix() {
    let propagator = GoogleTraceContextPropagator::new();
    let cx = propagator
        .extract_span_context(Some("105445aa7843bc8bf206b12000100000/7"))
        .unwrap();
    assert!(cx.sampled);
}

#[test]
fn explicit_flag_digits() {
    let propagator = GoogleTraceContextPropagator::new();
    for digit in 0..=9 {
        let value = format!("105445aa7843bc8bf206b12000100000/1;o={digit}");
        let cx = propagator.extract_span_context(Some(value.as_str())).unwrap();
        assert_eq!(cx.sampled, digit != 0, "flag digit {digit}");
    }
}

#[test]
fn missing_header_leaves_ambient_context_unchanged() {
    let propagator = GoogleTraceContextPropagator::new();
    assert_eq!(
        propagator.extract_span_context(None),
        Err(DecodeError::Missing)
    );

    let ambient = TraceContext::new(7, 9, false);
    assert_eq!(
        propagator.extract_with_context(Some(ambient), None),
        Some(ambient)
    );
    assert_eq!(propagator.extract_with_context(None, None), None);
}

#[test]
fn failed_extraction_leaves_ambient_context_unchanged() {
    let propagator = GoogleTraceContextPropagator::new();
    let ambient = TraceContext::new(7, 9, false);
    let kept = propagator.extract_with_context(Some(ambient), Some("not a header"));
    assert_eq!(kept, Some(ambient));
}

#[test]
fn zero_identifiers_are_rejected() {
    let propagator = GoogleTraceContextPropagator::new();
    assert_eq!(
        propagator.extract_span_context(Some("00000000000000000000000000000000/1;o=1")),
        Err(DecodeError::InvalidContext)
    );
    assert_eq!(
        propagator.extract_span_context(Some("105445aa7843bc8bf206b12000100000/0;o=1")),
        Err(DecodeError::InvalidContext)
    );
    // a zero span id written with several digits is still zero
    assert_eq!(
        propagator.extract_span_context(Some("105445aa7843bc8bf206b12000100000/000")),
        Err(DecodeError::InvalidContext)
    );
}

#[test]
fn span_id_overflow_is_invalid_span_id() {
    let propagator = GoogleTraceContextPropagator::new();
    // 20 digits, one past u64::MAX
    assert_eq!(
        propagator.extract_span_context(Some("105445aa7843bc8bf206b12000100000/18446744073709551616")),
        Err(DecodeError::InvalidSpanId)
    );
    // 20 nines
    assert_eq!(
        propagator.extract_span_context(Some("105445aa7843bc8bf206b12000100000/99999999999999999999")),
        Err(DecodeError::InvalidSpanId)
    );
}

#[test]
fn largest_span_id_fits() {
    let propagator = GoogleTraceContextPropagator::new();
    let cx = propagator
        .extract_span_context(Some("105445aa7843bc8bf206b12000100000/18446744073709551615"))
        .unwrap();
    assert_eq!(cx.span_id, u64::MAX);
}

#[test]
fn span_id_leading_zeros_are_accepted() {
    let propagator = GoogleTraceContextPropagator::new();
    let cx = propagator
        .extract_span_context(Some("105445aa7843bc8bf206b12000100000/007"))
        .unwrap();
    assert_eq!(cx.span_id, 7);
}

#[test]
fn surrounding_whitespace_is_trimmed() {
    let propagator = GoogleTraceContextPropagator::new();
    let cx = propagator
        .extract_span_context(Some("  \t105445aa7843bc8bf206b12000100000/1;o=0\r\n "))
        .unwrap();
    assert_eq!(cx.span_id, 1);
    assert!(!cx.sampled);
}

#[test]
fn encoding_pads_trace_id_to_32_digits() {
    let propagator = GoogleTraceContextPropagator::new();
    let cx = TraceContext::new(0x1, 5, false);
    assert_eq!(
        propagator.inject_context(Some(&cx)),
        Some("00000000000000000000000000000001/5;o=0".to_string())
    );
}

#[test]
fn encoding_invalid_context_writes_nothing() {
    let propagator = GoogleTraceContextPropagator::new();
    let zero_trace = TraceContext::new(0, 1, true);
    let zero_span = TraceContext::new(1, 0, true);
    assert_eq!(propagator.inject_context(Some(&zero_trace)), None);
    assert_eq!(propagator.inject_context(Some(&zero_span)), None);
    assert_eq!(propagator.inject_context(None), None);
}

#[test]
fn construct_span_context_checks_each_field() {
    let ok = GoogleTraceContextPropagator::construct_span_context(
        true,
        "105445aa7843bc8bf206b12000100000",
        "1",
    )
    .unwrap();
    assert_eq!(ok.trace_id, 0x105445aa7843bc8bf206b12000100000);
    assert_eq!(ok.span_id, 1);
    assert!(ok.sampled);

    assert_eq!(
        GoogleTraceContextPropagator::construct_span_context(true, "xyz", "1"),
        Err(DecodeError::InvalidTraceId)
    );
    assert_eq!(
        GoogleTraceContextPropagator::construct_span_context(true, "105445AA7843BC8BF206B12000100000", "1"),
        Err(DecodeError::InvalidTraceId)
    );
    assert_eq!(
        GoogleTraceContextPropagator::construct_span_context(
            false,
            "105445aa7843bc8bf206b12000100000",
            "18446744073709551616",
        ),
        Err(DecodeError::InvalidSpanId)
    );
    assert_eq!(
        GoogleTraceContextPropagator::construct_span_context(
            false,
            "105445aa7843bc8bf206b12000100000",
            "1a",
        ),
        Err(DecodeError::InvalidSpanId)
    );
}

#[test]
fn fields_names_the_one_header() {
    let propagator = GoogleTraceContextPropagator::new();
    let names = propagator.fields();
    assert_eq!(names, vec!["X-Cloud-Trace-Context".to_string()]);
    assert_eq!(header_name(), "X-Cloud-Trace-Context");
}
