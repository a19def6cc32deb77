use opentelemetry_application_insights::attributes::{collect_attrs, Attribute, KeyValue, Value};
use opentelemetry_application_insights::convert::{
    attrs_to_properties, duration_to_string, span_duration, span_id_to_string, trace_id_to_string,
    Consumed,
};
use opentelemetry_application_insights::models::{Data, MessageData, RemoteDependencyData, RequestData};
use opentelemetry_application_insights::span::{Event, Span, SpanKind, SpanStatus};
use opentelemetry_application_insights::tags::ContextTagKey;
use opentelemetry_application_insights::time::Timestamp;
use opentelemetry_application_insights::{ExportResult, Exporter, UploadResponse};

fn attrs(pairs: &[(&str, &str)]) -> Vec<Attribute> {
    let mut out = Vec::new();
    for (k, v) in pairs {
        out.push(Attribute::string(k, v));
    }
    out
}

fn pairs(properties: &Option<Vec<KeyValue>>) -> Vec<(String, String)> {
    match properties {
        Some(entries) => entries.iter().map(|e| (e.key.clone(), e.value.clone())).collect(),
        None => Vec::new(),
    }
}

fn owned(pairs: &[(&str, &str)]) -> Vec<(String, String)> {
    pairs.iter().map(|(k, v)| (k.to_string(), v.to_string())).collect()
}

fn span(kind: SpanKind, name: &str, attributes: &[(&str, &str)]) -> Span {
    Span {
        trace_id: 0x0102030405060708090a0b0c0d0e0f10,
        span_id: 0x1112131415161718,
        parent_span_id: None,
        kind,
        name: name.to_string(),
        start_time: Timestamp { nanos: 1_600_000_000_000_000_000 },
        end_time: Timestamp { nanos: 1_600_000_001_500_000_000 },
        status: SpanStatus { ok: true, code: 0 },
        attributes: attrs(attributes),
        events: Vec::new(),
        resource: Vec::new(),
    }
}

#[test]
fn kind_decides_the_record() {
    let exporter = Exporter::new("key".to_string());
    for kind in [SpanKind::Server, SpanKind::Consumer] {
        let envelopes = exporter.create_envelopes(&span(kind, "op", &[]));
        assert_eq!(envelopes.len(), 1);
        assert!(matches!(envelopes[0].data, Data::Request(_)));
        assert_eq!(envelopes[0].name, "Microsoft.ApplicationInsights.Request");
    }
    for kind in [SpanKind::Client, SpanKind::Producer, SpanKind::Internal] {
        let envelopes = exporter.create_envelopes(&span(kind, "op", &[]));
        assert_eq!(envelopes.len(), 1);
        assert!(matches!(envelopes[0].data, Data::RemoteDependency(_)));
        assert_eq!(envelopes[0].name, "Microsoft.ApplicationInsights.RemoteDependency");
    }
}

#[test]
fn request_name_from_method_and_route() {
    let both = span(SpanKind::Server, "span", &[("http.method", "GET"), ("http.route", "/users/:id")]);
    assert_eq!(RequestData::from(&both).name, Some("GET /users/:id".to_string()));
    let method = span(SpanKind::Server, "span", &[("http.method", "GET")]);
    assert_eq!(RequestData::from(&method).name, Some("GET".to_string()));
    let neither = span(SpanKind::Server, "span", &[]);
    assert_eq!(RequestData::from(&neither).name, Some("span".to_string()));
    let nameless = span(SpanKind::Server, "", &[]);
    assert_eq!(RequestData::from(&nameless).name, None);
}

#[test]
fn route_without_method_stays_a_property() {
    let s = span(SpanKind::Server, "span", &[("http.route", "/users/:id")]);
    let data = RequestData::from(&s);
    assert_eq!(data.name, Some("span".to_string()));
    assert_eq!(pairs(&data.properties), owned(&[("http.route", "/users/:id")]));
}

#[test]
fn request_fields_and_properties() {
    let mut s = span(
        SpanKind::Server,
        "span",
        &[
            ("custom.first", "1"),
            ("http.method", "POST"),
            ("http.url", "https://example.com/a"),
            ("http.target", "/a"),
            ("http.status_code", "503"),
            ("enduser.id", "alice"),
            ("custom.second", "2"),
        ],
    );
    s.status = SpanStatus { ok: false, code: 14 };
    let data = RequestData::from(&s);
    assert_eq!(data.ver, 2);
    assert_eq!(data.id, "1112131415161718");
    assert_eq!(data.source, None);
    assert_eq!(data.name, Some("POST".to_string()));
    assert_eq!(data.duration, "0.00:00:01.500000");
    assert_eq!(data.response_code, "503");
    assert!(!data.success);
    assert_eq!(data.url, Some("https://example.com/a".to_string()));
    assert_eq!(
        pairs(&data.properties),
        owned(&[("custom.first", "1"), ("http.target", "/a"), ("custom.second", "2")])
    );
}

#[test]
fn request_url_falls_back_to_target_and_code_to_status() {
    let mut s = span(SpanKind::Consumer, "span", &[("http.target", "/a")]);
    s.status = SpanStatus { ok: false, code: -7 };
    let data = RequestData::from(&s);
    assert_eq!(data.url, Some("/a".to_string()));
    assert_eq!(data.response_code, "-7");
    assert_eq!(data.properties.is_none(), true);
    s.status = SpanStatus { ok: true, code: 0 };
    assert_eq!(RequestData::from(&s).response_code, "0");
    s.status = SpanStatus { ok: false, code: i32::MIN };
    assert_eq!(RequestData::from(&s).response_code, "-2147483648");
    s.status = SpanStatus { ok: false, code: i32::MAX };
    assert_eq!(RequestData::from(&s).response_code, "2147483647");
}

#[test]
fn internal_dependency_is_in_proc_and_successful() {
    let mut s = span(
        SpanKind::Internal,
        "work",
        &[("db.system", "postgresql"), ("http.url", "https://example.com")],
    );
    s.status = SpanStatus { ok: false, code: 2 };
    let data = RemoteDependencyData::from(&s);
    assert_eq!(data.type_, Some("InProc".to_string()));
    assert_eq!(data.success, Some(true));
    assert_eq!(data.result_code, Some("2".to_string()));
    assert_eq!(data.data, Some("https://example.com".to_string()));
    assert_eq!(pairs(&data.properties), owned(&[("db.system", "postgresql")]));
}

#[test]
fn dependency_type_follows_the_attributes() {
    let db = span(SpanKind::Client, "q", &[("db.system", "postgresql"), ("messaging.system", "kafka")]);
    let data = RemoteDependencyData::from(&db);
    assert_eq!(data.type_, Some("postgresql".to_string()));
    assert_eq!(pairs(&data.properties), owned(&[("messaging.system", "kafka")]));
    let messaging = span(SpanKind::Producer, "q", &[("messaging.system", "kafka")]);
    let data = RemoteDependencyData::from(&messaging);
    assert_eq!(data.type_, Some("kafka".to_string()));
    assert!(data.properties.is_none());
    let http = span(SpanKind::Client, "q", &[("http.url", "https://example.com")]);
    assert_eq!(RemoteDependencyData::from(&http).type_, Some("HTTP".to_string()));
    let http_other = span(SpanKind::Client, "q", &[("http.flavor", "1.1")]);
    assert_eq!(RemoteDependencyData::from(&http_other).type_, Some("HTTP".to_string()));
    let db_other = span(SpanKind::Client, "q", &[("db.statement", "select 1")]);
    assert_eq!(RemoteDependencyData::from(&db_other).type_, Some("DB".to_string()));
    let near = span(SpanKind::Client, "q", &[("http", "x"), ("dbx", "y"), ("httpx.y", "z")]);
    assert_eq!(RemoteDependencyData::from(&near).type_, None);
    let none = span(SpanKind::Client, "q", &[]);
    assert_eq!(RemoteDependencyData::from(&none).type_, None);
}

#[test]
fn dependency_fields_by_precedence() {
    let mut s = span(
        SpanKind::Client,
        "call",
        &[
            ("db.statement", "select 1"),
            ("db.name", "orders"),
            ("net.peer.name", "db.internal"),
            ("other", "x"),
        ],
    );
    s.status = SpanStatus { ok: false, code: 13 };
    let data = RemoteDependencyData::from(&s);
    assert_eq!(data.ver, 2);
    assert_eq!(data.name, Some("call".to_string()));
    assert_eq!(data.id, Some("1112131415161718".to_string()));
    assert_eq!(data.result_code, Some("13".to_string()));
    assert_eq!(data.success, Some(false));
    assert_eq!(data.data, Some("select 1".to_string()));
    assert_eq!(data.target, Some("db.internal".to_string()));
    assert_eq!(data.type_, Some("DB".to_string()));
    assert_eq!(data.duration, "0.00:00:01.500000");
    assert_eq!(pairs(&data.properties), owned(&[("db.name", "orders"), ("other", "x")]));

    let host = span(
        SpanKind::Client,
        "call",
        &[("http.host", "example.com"), ("net.peer.name", "peer"), ("http.url", "u"), ("db.statement", "s")],
    );
    let data = RemoteDependencyData::from(&host);
    assert_eq!(data.target, Some("example.com".to_string()));
    assert_eq!(data.data, Some("u".to_string()));
    assert_eq!(pairs(&data.properties), owned(&[("net.peer.name", "peer"), ("db.statement", "s")]));

    let name_only = span(SpanKind::Client, "call", &[("db.name", "orders")]);
    let data = RemoteDependencyData::from(&name_only);
    assert_eq!(data.target, Some("orders".to_string()));
    assert_eq!(data.data, None);
    assert!(data.properties.is_none());
}

#[test]
fn span_attributes_win_over_resource_attributes() {
    let mut s = span(SpanKind::Server, "span", &[("shared", "span"), ("own", "1"), ("own", "2")]);
    s.resource = attrs(&[("service.name", "shop"), ("shared", "resource")]);
    let data = RequestData::from(&s);
    assert_eq!(
        pairs(&data.properties),
        owned(&[("service.name", "shop"), ("shared", "span"), ("own", "2")])
    );
    let merged = collect_attrs(&s.attributes, &s.resource);
    assert_eq!(merged.len(), 3);
    assert_eq!(merged.get("shared"), Some(&"span".to_string()));
    assert_eq!(merged.get("absent"), None);
    assert!(merged.contains_key("own"));
    assert!(merged.any_key_starts_with("service."));
    assert!(!merged.any_key_starts_with("http."));
    assert_eq!(merged.entry(0).key, "service.name");
}

#[test]
fn properties_keep_what_was_not_taken() {
    let merged = collect_attrs(&attrs(&[("a", "1"), ("http.url", "u"), ("b", "2")]), &Vec::new());
    let all = attrs_to_properties(&merged, Consumed::nothing());
    assert_eq!(pairs(&all), owned(&[("a", "1"), ("http.url", "u"), ("b", "2")]));
    let mut consumed = Consumed::nothing();
    consumed.http_url = true;
    assert!(consumed.takes_key("http.url"));
    assert!(!consumed.takes_key("http.target"));
    assert_eq!(pairs(&attrs_to_properties(&merged, consumed)), owned(&[("a", "1"), ("b", "2")]));
    let only = collect_attrs(&attrs(&[("http.url", "u")]), &Vec::new());
    assert!(attrs_to_properties(&only, consumed).is_none());
}

#[test]
fn message_from_event() {
    let event = Event {
        name: "cache miss".to_string(),
        timestamp: Timestamp { nanos: 0 },
        attributes: attrs(&[("k", "1"), ("enduser.id", "bob"), ("k", "2")]),
    };
    let data = MessageData::from(&event);
    assert_eq!(data.ver, 2);
    assert_eq!(data.message, "cache miss");
    assert_eq!(pairs(&data.properties), owned(&[("k", "2"), ("enduser.id", "bob")]));
    let empty = Event { name: String::new(), timestamp: Timestamp { nanos: 0 }, attributes: Vec::new() };
    let data = MessageData::from(&empty);
    assert_eq!(data.message, "<no message>");
    assert!(data.properties.is_none());
}

#[test]
fn identifiers_in_hexadecimal() {
    assert_eq!(span_id_to_string(0), "0000000000000000");
    assert_eq!(span_id_to_string(0xabcdef), "0000000000abcdef");
    assert_eq!(span_id_to_string(u64::MAX), "ffffffffffffffff");
    assert_eq!(trace_id_to_string(1), "00000000000000000000000000000001");
    assert_eq!(trace_id_to_string(u128::MAX), "ffffffffffffffffffffffffffffffff");
    assert_eq!(
        trace_id_to_string(0x0102030405060708090a0b0c0d0e0f10),
        "0102030405060708090a0b0c0d0e0f10"
    );
}

#[test]
fn durations_in_text() {
    assert_eq!(duration_to_string(123456789123), "1.10:17:36.789123");
    assert_eq!(duration_to_string(0), "0.00:00:00.000000");
    assert_eq!(duration_to_string(1), "0.00:00:00.000001");
    assert_eq!(duration_to_string(86_400_000_000 * 12 - 1), "11.23:59:59.999999");
    let start = Timestamp { nanos: 5_000_000_999 };
    let end = Timestamp { nanos: 7_000_001_998 };
    assert_eq!(span_duration(start, end), 2_000_000);
    assert_eq!(span_duration(end, start), 0);
    assert_eq!(span_duration(start, start), 0);
}

#[test]
fn clock_skew_gives_a_zero_duration() {
    let mut s = span(SpanKind::Server, "span", &[]);
    s.end_time = Timestamp { nanos: s.start_time.nanos - 1 };
    assert_eq!(RequestData::from(&s).duration, "0.00:00:00.000000");
    assert_eq!(RemoteDependencyData::from(&s).duration, "0.00:00:00.000000");
}

#[test]
fn envelopes_of_a_span_with_events() {
    let exporter = Exporter::new("ikey".to_string()).with_application_version("1.2.3".to_string());
    let mut s = span(SpanKind::Server, "span", &[("enduser.id", "alice")]);
    s.parent_span_id = Some(0x21);
    s.events = vec![
        Event { name: "first".to_string(), timestamp: Timestamp { nanos: 1_582_934_400_123_456_789 }, attributes: Vec::new() },
        Event { name: String::new(), timestamp: Timestamp { nanos: 0 }, attributes: attrs(&[("k", "v")]) },
    ];
    let envelopes = exporter.create_envelopes(&s);
    assert_eq!(envelopes.len(), 3);
    let primary = &envelopes[0];
    assert_eq!(primary.name, "Microsoft.ApplicationInsights.Request");
    assert_eq!(primary.time, "2020-09-13T12:26:40.000Z");
    assert_eq!(primary.i_key, "ikey");
    assert_eq!(
        primary.tags.get(ContextTagKey::OperationId),
        Some(&"0102030405060708090a0b0c0d0e0f10".to_string())
    );
    assert_eq!(primary.tags.get(ContextTagKey::OperationParentId), Some(&"0000000000000021".to_string()));
    assert_eq!(primary.tags.get(ContextTagKey::UserAuthUserId), Some(&"alice".to_string()));
    assert_eq!(primary.tags.get(ContextTagKey::ApplicationVersion), Some(&"1.2.3".to_string()));
    assert!(primary.tags.get(ContextTagKey::InternalSdkVersion).is_some());
    assert_eq!(primary.tags.get(ContextTagKey::CloudRole), None);
    match &primary.data {
        Data::Request(data) => assert!(data.properties.is_none()),
        _ => panic!("a server span gives a request"),
    }
    let first = &envelopes[1];
    assert_eq!(first.name, "Microsoft.ApplicationInsights.Message");
    assert_eq!(first.time, "2020-02-29T00:00:00.123Z");
    assert_eq!(first.i_key, "ikey");
    assert_eq!(first.tags.get(ContextTagKey::OperationParentId), Some(&"1112131415161718".to_string()));
    assert_eq!(first.tags.get(ContextTagKey::UserAuthUserId), None);
    match &first.data {
        Data::Message(data) => assert_eq!(data.message, "first"),
        _ => panic!("an event gives a message"),
    }
    match &envelopes[2].data {
        Data::Message(data) => {
            assert_eq!(data.message, "<no message>");
            assert_eq!(pairs(&data.properties), owned(&[("k", "v")]));
        }
        _ => panic!("an event gives a message"),
    }
    assert_eq!(envelopes[2].time, "1970-01-01T00:00:00.000Z");
}

#[test]
fn envelopes_of_a_batch_keep_its_order() {
    let exporter = Exporter::new("ikey".to_string());
    assert_eq!(exporter.instrumentation_key(), "ikey");
    assert!(exporter.create_batch_envelopes(&Vec::new()).is_empty());
    let mut first = span(SpanKind::Client, "first", &[]);
    first.events = vec![Event { name: "e".to_string(), timestamp: Timestamp { nanos: 0 }, attributes: Vec::new() }];
    let second = span(SpanKind::Server, "second", &[]);
    let envelopes = exporter.create_batch_envelopes(&vec![first, second]);
    assert_eq!(envelopes.len(), 3);
    assert!(matches!(envelopes[0].data, Data::RemoteDependency(_)));
    assert!(matches!(envelopes[1].data, Data::Message(_)));
    assert!(matches!(envelopes[2].data, Data::Request(_)));
}

#[test]
fn upload_outcome_becomes_export_result() {
    assert_eq!(ExportResult::from(UploadResponse::Success), ExportResult::Success);
    assert_eq!(ExportResult::from(UploadResponse::Retry), ExportResult::FailedRetryable);
    assert_eq!(ExportResult::from(UploadResponse::NoRetry), ExportResult::FailedNotRetryable);
}

#[test]
fn typed_values_become_text() {
    assert_eq!(Value::Bool(true).to_text(), "true");
    assert_eq!(Value::Bool(false).to_text(), "false");
    assert_eq!(Value::I64(0).to_text(), "0");
    assert_eq!(Value::I64(-15).to_text(), "-15");
    assert_eq!(Value::I64(i64::MAX).to_text(), "9223372036854775807");
    assert_eq!(Value::I64(i64::MIN).to_text(), "-9223372036854775808");
    assert_eq!(Value::F64("1.5".to_string()).to_text(), "1.5");
    assert_eq!(Value::String("as it is".to_string()).to_text(), "as it is");
    let pair = KeyValue::new("k", "v");
    assert_eq!((pair.key.as_str(), pair.value.as_str()), ("k", "v"));
    let copy = pair.duplicate();
    assert_eq!((copy.key, copy.value), (pair.key, pair.value));
}

#[test]
fn typed_attributes_fill_fields_and_properties() {
    let mut s = span(SpanKind::Server, "span", &[("http.method", "GET")]);
    s.attributes.push(Attribute::integer("http.status_code", 404));
    s.attributes.push(Attribute::boolean("cache.hit", false));
    s.attributes.push(Attribute::integer("retries", -1));
    s.attributes.push(Attribute { key: "ratio".to_string(), value: Value::F64("0.25".to_string()) });
    s.resource.push(Attribute::boolean("cache.hit", true));
    let data = RequestData::from(&s);
    assert_eq!(data.response_code, "404");
    assert_eq!(
        pairs(&data.properties),
        owned(&[("cache.hit", "false"), ("retries", "-1"), ("ratio", "0.25")])
    );
    let mut d = span(SpanKind::Client, "call", &[]);
    d.attributes.push(Attribute::integer("http.status_code", 200));
    let data = RemoteDependencyData::from(&d);
    assert_eq!(data.result_code, Some("200".to_string()));
    assert_eq!(data.type_, Some("HTTP".to_string()));
    assert!(data.properties.is_none());
}

#[test]
fn dependency_of_a_nameless_span_has_no_name() {
    let nameless = span(
        SpanKind::Client,
        "",
        &[("http.method", "GET"), ("http.route", "/users/:id")],
    );
    let data = RemoteDependencyData::from(&nameless);
    assert_eq!(data.name, None);
    assert_eq!(
        pairs(&data.properties),
        owned(&[("http.method", "GET"), ("http.route", "/users/:id")])
    );
    let exporter = Exporter::new("key".to_string());
    match &exporter.create_envelopes(&nameless)[0].data {
        Data::RemoteDependency(data) => assert_eq!(data.name, None),
        _ => panic!("a client span gives a dependency"),
    }
}

#[test]
fn dependency_name_is_never_overridden() {
    let named = span(
        SpanKind::Producer,
        "publish",
        &[("http.method", "GET"), ("http.route", "/users/:id")],
    );
    assert_eq!(RemoteDependencyData::from(&named).name, Some("publish".to_string()));
    let internal = span(SpanKind::Internal, "work", &[("http.method", "GET")]);
    assert_eq!(RemoteDependencyData::from(&internal).name, Some("work".to_string()));
}

#[test]
fn internal_dependency_succeeds_whatever_the_status() {
    for (ok, code) in [(true, 0), (false, 1), (false, 2), (false, -1), (false, i32::MAX)] {
        let mut s = span(SpanKind::Internal, "work", &[("http.status_code", "500")]);
        s.status = SpanStatus { ok, code };
        s.resource = attrs(&[("db.system", "mysql")]);
        let data = RemoteDependencyData::from(&s);
        assert_eq!(data.success, Some(true));
        assert_eq!(data.type_, Some("InProc".to_string()));
    }
    let mut failed = span(SpanKind::Client, "call", &[]);
    failed.status = SpanStatus { ok: false, code: 2 };
    assert_eq!(RemoteDependencyData::from(&failed).success, Some(false));
}

#[test]
fn role_name_and_instance_are_common_tags() {
    let exporter = Exporter::new("key".to_string())
        .with_role_name("checkout".to_string())
        .with_role_instance("checkout-1".to_string())
        .with_application_version("2.0".to_string());
    assert_eq!(exporter.common_tags().get(ContextTagKey::CloudRole), Some(&"checkout".to_string()));
    let mut s = span(SpanKind::Server, "span", &[]);
    s.events = vec![Event { name: "e".to_string(), timestamp: Timestamp { nanos: 0 }, attributes: Vec::new() }];
    for envelope in exporter.create_envelopes(&s) {
        assert_eq!(envelope.tags.get(ContextTagKey::CloudRole), Some(&"checkout".to_string()));
        assert_eq!(envelope.tags.get(ContextTagKey::CloudRoleInstance), Some(&"checkout-1".to_string()));
        assert_eq!(envelope.tags.get(ContextTagKey::ApplicationVersion), Some(&"2.0".to_string()));
    }
    let plain = Exporter::new("key".to_string());
    assert_eq!(plain.common_tags().get(ContextTagKey::CloudRole), None);
    let renamed = exporter.with_role_name("cart".to_string());
    assert_eq!(renamed.common_tags().get(ContextTagKey::CloudRole), Some(&"cart".to_string()));
}
