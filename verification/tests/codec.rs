use trace_context::{ParseError, TraceContext};

fn sample_context() -> TraceContext {
    TraceContext {
        id: 2,
        version: 0,
        trace_id: 1,
        parent_id: Some(9),
        flags: 1,
    }
}

#[test]
fn encode_canonical_form() {
    let encoded = sample_context().encode();
    assert_eq!(
        encoded,
        b"00-00000000000000000000000000000001-0000000000000002-01".to_vec()
    );
}

#[test]
fn encode_pads_and_lowercases() {
    let context = TraceContext {
        id: 0x00f067aa0ba902b7,
        version: 0,
        trace_id: 0x0af7651916cd43dd8448eb211c80319c,
        parent_id: None,
        flags: 0xff,
    };
    assert_eq!(
        context.encode(),
        b"00-0af7651916cd43dd8448eb211c80319c-00f067aa0ba902b7-ff".to_vec()
    );
}

#[test]
fn round_trip_from_root() {
    let root = TraceContext::new_root();
    let mut headers = http::HeaderMap::new();
    root.inject(&mut headers);
    let extracted = TraceContext::extract(&headers).unwrap();
    assert_eq!(extracted.version(), root.version());
    assert_eq!(extracted.trace_id(), root.trace_id());
    assert_eq!(extracted.flags(), root.flags());
    assert_eq!(extracted.parent_id(), Some(root.id()));
}

#[test]
fn round_trip_from_child() {
    let child = TraceContext::new_root().child();
    let mut headers = http::HeaderMap::new();
    child.inject(&mut headers);
    let extracted = TraceContext::extract(&headers).unwrap();
    assert_eq!(extracted.version(), child.version());
    assert_eq!(extracted.trace_id(), child.trace_id());
    assert_eq!(extracted.flags(), child.flags());
    assert_eq!(extracted.parent_id(), Some(child.id()));
}

#[test]
fn inject_overwrites_prior_entry() {
    let context = sample_context();
    let mut headers = http::HeaderMap::new();
    headers.insert("traceparent", "00-aa-bb-00".parse().unwrap());
    context.inject(&mut headers);
    let extracted = TraceContext::extract(&headers).unwrap();
    assert_eq!(extracted.trace_id(), 1);
    assert_eq!(extracted.parent_id(), Some(2));
}

#[test]
fn inject_leaves_other_entries() {
    let mut headers = http::HeaderMap::new();
    headers.insert("content-type", "text/plain".parse().unwrap());
    sample_context().inject(&mut headers);
    assert_eq!(headers.get("content-type").unwrap(), "text/plain");
    let extracted = TraceContext::extract(&headers).unwrap();
    assert_eq!(extracted.parent_id(), Some(2));
}

#[test]
fn child_links_to_parent() {
    let parent = TraceContext::new_root();
    let child = parent.child();
    assert_eq!(child.version(), parent.version());
    assert_eq!(child.trace_id(), parent.trace_id());
    assert_eq!(child.flags(), parent.flags());
    assert_eq!(child.parent_id(), Some(parent.id()));
}

#[test]
fn children_get_distinct_ids() {
    let parent = TraceContext::new_root();
    let first = parent.child();
    let second = parent.child();
    assert_eq!(first.trace_id(), parent.trace_id());
    assert_eq!(second.trace_id(), parent.trace_id());
    assert_eq!(first.parent_id(), Some(parent.id()));
    assert_eq!(second.parent_id(), Some(parent.id()));
    assert_ne!(first.id(), second.id());
}

#[test]
fn set_sampled_keeps_other_bits() {
    let mut context = TraceContext {
        flags: 0xab,
        ..sample_context()
    };
    context.set_sampled(true);
    assert_eq!(context.flags(), 0xab);
    context.set_sampled(false);
    assert_eq!(context.flags(), 0xaa);
    assert_eq!(context.sampled(), false);
    context.set_sampled(true);
    assert_eq!(context.flags(), 0xab);
    assert_eq!(context.sampled(), true);
}

#[test]
fn set_sampled_on_root() {
    let mut context = TraceContext::new_root();
    assert_eq!(context.sampled(), true);
    context.set_sampled(false);
    assert_eq!(context.sampled(), false);
    assert_eq!(context.flags(), 0);
}

fn extract_err(value: &str) -> ParseError {
    let mut headers = http::HeaderMap::new();
    headers.insert("traceparent", value.parse().unwrap());
    TraceContext::extract(&headers).unwrap_err()
}

#[test]
fn too_few_segments_rejected() {
    assert_eq!(extract_err("00-01-02"), ParseError::Structure);
}

#[test]
fn too_many_segments_rejected() {
    assert_eq!(extract_err("00-01-02-01-ff"), ParseError::Structure);
}

#[test]
fn empty_value_rejected() {
    assert_eq!(extract_err(""), ParseError::Structure);
}

#[test]
fn bad_version_rejected() {
    assert_eq!(extract_err("zz-01-02-01"), ParseError::Version);
}

#[test]
fn version_overflow_rejected() {
    assert_eq!(extract_err("100-01-02-01"), ParseError::Version);
}

#[test]
fn bad_trace_id_rejected() {
    assert_eq!(extract_err("00-zz-02-01"), ParseError::TraceId);
}

#[test]
fn empty_trace_id_rejected() {
    assert_eq!(extract_err("00--02-01"), ParseError::TraceId);
}

#[test]
fn bad_parent_id_rejected() {
    assert_eq!(extract_err("00-01-zz-01"), ParseError::ParentId);
}

#[test]
fn parent_id_overflow_rejected() {
    assert_eq!(extract_err("00-01-10000000000000000-01"), ParseError::ParentId);
}

#[test]
fn bad_flags_rejected() {
    assert_eq!(extract_err("00-01-02-zz"), ParseError::Flags);
}

#[test]
fn flags_overflow_rejected() {
    assert_eq!(extract_err("00-01-02-100"), ParseError::Flags);
}

#[test]
fn opaque_bytes_rejected() {
    let mut headers = http::HeaderMap::new();
    let value = http::HeaderValue::from_bytes(b"00-01-02-\xfa").unwrap();
    headers.insert("traceparent", value);
    assert_eq!(
        TraceContext::extract(&headers).unwrap_err(),
        ParseError::Flags
    );
}
