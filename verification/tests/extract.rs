use trace_context::TraceContext;

#[test]
fn default() {
    let mut headers = http::HeaderMap::new();
    headers.insert("traceparent", "00-01-deadbeef-00".parse().unwrap());
    let context = TraceContext::extract(&headers).unwrap();
    assert_eq!(context.version(), 0);
    assert_eq!(context.trace_id(), 1);
    assert_eq!(context.parent_id().unwrap(), 3735928559);
    assert_eq!(context.flags(), 0);
    assert_eq!(context.sampled(), false);
}

#[test]
fn no_header() {
    let headers = http::HeaderMap::new();
    let context = TraceContext::extract(&headers).unwrap();
    assert_eq!(context.version(), 0);
    assert_eq!(context.parent_id(), None);
    assert_eq!(context.flags(), 1);
    assert_eq!(context.sampled(), true);
}

#[test]
fn not_sampled() {
    let mut headers = http::HeaderMap::new();
    headers.insert("traceparent", "00-01-02-00".parse().unwrap());
    let context = TraceContext::extract(&headers).unwrap();
    assert_eq!(context.sampled(), false);
}

#[test]
fn sampled() {
    let mut headers = http::HeaderMap::new();
    headers.insert("traceparent", "00-01-02-01".parse().unwrap());
    let context = TraceContext::extract(&headers).unwrap();
    assert_eq!(context.sampled(), true);
}

#[test]
fn wire_format_example() {
    let mut headers = http::HeaderMap::new();
    headers.insert(
        "traceparent",
        "00-0af7651916cd43dd8448eb211c80319c-00f067aa0ba902b7-01"
            .parse()
            .unwrap(),
    );
    let context = TraceContext::extract(&headers).unwrap();
    assert_eq!(context.version(), 0);
    assert_eq!(context.trace_id(), 0x0af7651916cd43dd8448eb211c80319c);
    assert_eq!(context.parent_id(), Some(0x00f067aa0ba902b7));
    assert_eq!(context.sampled(), true);
}

#[test]
fn uppercase_digits_accepted() {
    let mut headers = http::HeaderMap::new();
    headers.insert(
        "traceparent",
        "00-0AF7651916CD43DD8448EB211C80319C-00F067AA0BA902B7-01"
            .parse()
            .unwrap(),
    );
    let context = TraceContext::extract(&headers).unwrap();
    assert_eq!(context.trace_id(), 0x0af7651916cd43dd8448eb211c80319c);
    assert_eq!(context.parent_id(), Some(0x00f067aa0ba902b7));
}

#[test]
fn short_fields_accepted() {
    let mut headers = http::HeaderMap::new();
    headers.insert("traceparent", "0-1-2-1".parse().unwrap());
    let context = TraceContext::extract(&headers).unwrap();
    assert_eq!(context.version(), 0);
    assert_eq!(context.trace_id(), 1);
    assert_eq!(context.parent_id(), Some(2));
    assert_eq!(context.flags(), 1);
}
