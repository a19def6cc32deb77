use opentelemetry_application_insights::attributes::{Attribute, KeyValue};
use opentelemetry_application_insights::models::{
    sanitize_properties, Data, Envelope, MessageData, RemoteDependencyData, RequestData,
};
use opentelemetry_application_insights::span::{Span, SpanKind, SpanStatus};
use opentelemetry_application_insights::tags::{
    get_common_tags, merge_tags, ContextTagKey, TagMap,
};
use opentelemetry_application_insights::text::{
    push_number, push_signed, same_text, starts_with, truncate_optional, truncate_string,
};
use opentelemetry_application_insights::time::{date_from_days, time_to_string, Timestamp};
use opentelemetry_application_insights::Exporter;

fn long(c: char, n: usize) -> String {
    std::iter::repeat(c).take(n).collect()
}

fn request() -> RequestData {
    RequestData {
        ver: 2,
        id: long('i', 129),
        source: Some(long('s', 1025)),
        name: Some(long('n', 1025)),
        duration: long('d', 5000),
        response_code: long('r', 1025),
        success: true,
        url: Some(long('u', 2049)),
        properties: Some(vec![
            KeyValue { key: long('k', 151), value: long('v', 8193) },
            KeyValue { key: long('k', 150), value: "dropped".to_string() },
            KeyValue { key: String::new(), value: "dropped".to_string() },
            KeyValue { key: "short".to_string(), value: "kept".to_string() },
        ]),
    }
}

fn shape(data: &RequestData) -> (usize, Option<usize>, Option<usize>, usize, usize, Option<usize>, Vec<(usize, usize)>) {
    (
        data.id.len(),
        data.source.as_ref().map(|s| s.len()),
        data.name.as_ref().map(|s| s.len()),
        data.duration.len(),
        data.response_code.len(),
        data.url.as_ref().map(|s| s.len()),
        data.properties.as_ref().map(|p| p.iter().map(|e| (e.key.len(), e.value.len())).collect()).unwrap_or_default(),
    )
}

#[test]
fn request_is_cut_to_the_limits() {
    let mut data = request();
    data.sanitize();
    assert_eq!(
        shape(&data),
        (128, Some(1024), Some(1024), 5000, 1024, Some(2048), vec![(150, 8192), (5, 4)])
    );
}

#[test]
fn sanitizing_twice_is_sanitizing_once() {
    let mut once = request();
    once.sanitize();
    let mut twice = request();
    twice.sanitize();
    twice.sanitize();
    assert_eq!(shape(&once), shape(&twice));
    assert_eq!(once.id, twice.id);
    assert_eq!(once.properties.as_ref().unwrap()[1].key, twice.properties.as_ref().unwrap()[1].key);
}

#[test]
fn dependency_is_cut_to_the_limits() {
    let mut data = RemoteDependencyData {
        ver: 2,
        name: Some(long('n', 2000)),
        id: Some(long('i', 200)),
        result_code: Some(long('r', 2000)),
        duration: "0.00:00:00.000000".to_string(),
        success: Some(false),
        data: Some(long('d', 9000)),
        target: Some(long('t', 2000)),
        type_: Some(long('y', 2000)),
        properties: None,
    };
    data.sanitize();
    assert_eq!(data.name.as_ref().unwrap().len(), 1024);
    assert_eq!(data.id.as_ref().unwrap().len(), 128);
    assert_eq!(data.result_code.as_ref().unwrap().len(), 1024);
    assert_eq!(data.data.as_ref().unwrap().len(), 8192);
    assert_eq!(data.target.as_ref().unwrap().len(), 1024);
    assert_eq!(data.type_.as_ref().unwrap().len(), 1024);
    assert_eq!(data.duration, "0.00:00:00.000000");
    assert_eq!(data.success, Some(false));
    assert!(data.properties.is_none());
    let kept = data.name.clone();
    data.sanitize();
    assert_eq!(data.name, kept);
}

#[test]
fn message_is_cut_to_the_limit() {
    let mut data = MessageData { ver: 2, message: long('m', 40000), properties: Some(Vec::new()) };
    data.sanitize();
    assert_eq!(data.message.len(), 32768);
    assert!(data.properties.is_none());
}

#[test]
fn properties_over_the_count_are_dropped() {
    let mut many = Vec::new();
    for i in 0..250 {
        many.push(KeyValue { key: format!("key{}", i), value: format!("{}", i) });
    }
    let mut properties = Some(many);
    sanitize_properties(&mut properties);
    let kept = properties.unwrap();
    assert_eq!(kept.len(), 200);
    assert_eq!(kept[0].key, "key0");
    assert_eq!(kept[199].key, "key199");
    let mut none: Option<Vec<KeyValue>> = None;
    sanitize_properties(&mut none);
    assert!(none.is_none());
    let mut empty_keys = Some(vec![KeyValue { key: String::new(), value: "v".to_string() }]);
    sanitize_properties(&mut empty_keys);
    assert!(empty_keys.is_none());
}

#[test]
fn truncation_counts_characters() {
    let mut s = "añb€c".to_string();
    truncate_string(&mut s, 4);
    assert_eq!(s, "añb€");
    truncate_string(&mut s, 4);
    assert_eq!(s, "añb€");
    truncate_string(&mut s, 10);
    assert_eq!(s, "añb€");
    truncate_string(&mut s, 0);
    assert_eq!(s, "");
    let mut some = Some("hello".to_string());
    truncate_optional(&mut some, 2);
    assert_eq!(some, Some("he".to_string()));
    let mut none: Option<String> = None;
    truncate_optional(&mut none, 2);
    assert_eq!(none, None);
}

#[test]
fn envelope_is_cut_to_the_limits() {
    let mut tags = TagMap::new();
    tags.insert(ContextTagKey::OperationId, long('o', 200));
    tags.insert(ContextTagKey::CloudRole, long('r', 300));
    tags.insert(ContextTagKey::InternalSdkVersion, long('v', 65));
    tags.insert(ContextTagKey::ApplicationVersion, long('a', 1024));
    let mut envelope = Envelope {
        name: "Microsoft.ApplicationInsights.Message".to_string(),
        time: long('t', 65),
        i_key: long('k', 41),
        tags,
        data: Data::Message(MessageData { ver: 2, message: long('m', 40000), properties: None }),
    };
    envelope.sanitize();
    assert_eq!(envelope.name, "Microsoft.ApplicationInsights.Message");
    assert_eq!(envelope.time.len(), 64);
    assert_eq!(envelope.i_key.len(), 40);
    assert_eq!(envelope.tags.get(ContextTagKey::OperationId).unwrap().len(), 128);
    assert_eq!(envelope.tags.get(ContextTagKey::CloudRole).unwrap().len(), 256);
    assert_eq!(envelope.tags.get(ContextTagKey::InternalSdkVersion).unwrap().len(), 64);
    assert_eq!(envelope.tags.get(ContextTagKey::ApplicationVersion).unwrap().len(), 1024);
    assert_eq!(envelope.tags.get(ContextTagKey::UserAuthUserId), None);
    match &envelope.data {
        Data::Message(data) => assert_eq!(data.message.len(), 32768),
        _ => panic!("the payload stays a message"),
    }
    assert_eq!(envelope.data.schema_name(), "Microsoft.ApplicationInsights.Message");
}

#[test]
fn exporter_sanitizes_what_it_creates() {
    let exporter = Exporter::new(long('k', 50));
    let span = Span {
        trace_id: 1,
        span_id: 2,
        parent_span_id: None,
        kind: SpanKind::Client,
        name: long('n', 3000),
        start_time: Timestamp { nanos: 0 },
        end_time: Timestamp { nanos: 0 },
        status: SpanStatus { ok: true, code: 0 },
        attributes: vec![Attribute::string("enduser.id", &long('u', 2000))],
        events: Vec::new(),
        resource: Vec::new(),
    };
    let envelopes = exporter.create_envelopes(&span);
    assert_eq!(envelopes[0].i_key.len(), 40);
    assert_eq!(envelopes[0].tags.get(ContextTagKey::UserAuthUserId).unwrap().len(), 1024);
    match &envelopes[0].data {
        Data::RemoteDependency(data) => assert_eq!(data.name.as_ref().unwrap().len(), 1024),
        _ => panic!("a client span gives a dependency"),
    }
}

#[test]
fn record_tags_win_over_common_tags() {
    let mut common = get_common_tags();
    common.insert(ContextTagKey::CloudRole, "common".to_string());
    common.insert(ContextTagKey::ApplicationVersion, "1.0".to_string());
    let mut record = TagMap::new();
    record.insert(ContextTagKey::CloudRole, "record".to_string());
    record.insert(ContextTagKey::OperationId, "op".to_string());
    let merged = merge_tags(common.clone(), record);
    assert_eq!(merged.get(ContextTagKey::CloudRole), Some(&"record".to_string()));
    assert_eq!(merged.get(ContextTagKey::ApplicationVersion), Some(&"1.0".to_string()));
    assert_eq!(merged.get(ContextTagKey::OperationId), Some(&"op".to_string()));
    assert_eq!(merged.get(ContextTagKey::OperationParentId), None);
    let listed: Vec<(String, String)> =
        merged.entries().iter().map(|t| (t.key.name().to_string(), t.value.clone())).collect();
    assert_eq!(
        listed,
        vec![
            ("ai.application.ver".to_string(), "1.0".to_string()),
            ("ai.operation.id".to_string(), "op".to_string()),
            ("ai.cloud.role".to_string(), "record".to_string()),
            (
                "ai.internal.sdkVersion".to_string(),
                "rust:opentelemetry-application-insights:0.1.0".to_string()
            ),
        ]
    );
    assert_eq!(common.get(ContextTagKey::CloudRole), Some(&"common".to_string()));
    assert!(TagMap::new().entries().is_empty());
    assert_eq!(ContextTagKey::OperationParentId.name(), "ai.operation.parentId");
    assert_eq!(ContextTagKey::UserAuthUserId.name(), "ai.user.authUserId");
    assert_eq!(ContextTagKey::CloudRoleInstance.name(), "ai.cloud.roleInstance");
    assert_eq!(ContextTagKey::CloudRoleInstance.max_len(), 256);
}

#[test]
fn numbers_in_text() {
    let mut s = String::from(">");
    push_number(&mut s, 0, 10, 1);
    push_number(&mut s, 255, 16, 1);
    push_number(&mut s, 7, 10, 3);
    push_number(&mut s, 12345, 10, 2);
    push_number(&mut s, 5, 10, 0);
    assert_eq!(s, ">0ff007123455");
    let mut t = String::new();
    push_number(&mut t, u128::MAX, 10, 1);
    assert_eq!(t, "340282366920938463463374607431768211455");
    let mut u = String::new();
    push_signed(&mut u, -42);
    push_signed(&mut u, 42);
    push_signed(&mut u, i64::MIN);
    assert_eq!(u, "-4242-9223372036854775808");
}

#[test]
fn prefixes_and_equal_texts() {
    assert!(starts_with("http.url", "http."));
    assert!(starts_with("http.", "http."));
    assert!(starts_with("anything", ""));
    assert!(!starts_with("http", "http."));
    assert!(!starts_with("xhttp.url", "http."));
    assert!(!starts_with("", "db."));
    assert!(same_text("é", "é"));
    assert!(!same_text("a", "b"));
    assert!(!same_text("a", "ab"));
}

#[test]
fn points_in_time_in_text() {
    let at = |secs: u128, nanos: u128| time_to_string(Timestamp { nanos: secs * 1_000_000_000 + nanos });
    assert_eq!(at(0, 0), "1970-01-01T00:00:00.000Z");
    assert_eq!(at(1_600_000_000, 999_999), "2020-09-13T12:26:40.000Z");
    assert_eq!(at(1_577_836_799, 999_999_999), "2019-12-31T23:59:59.999Z");
    assert_eq!(at(1_582_934_400, 1_000_000), "2020-02-29T00:00:00.001Z");
    assert_eq!(at(1_709_251_199, 0), "2024-02-29T23:59:59.000Z");
    assert_eq!(at(68_169_600, 0), "1972-02-29T00:00:00.000Z");
    assert_eq!(at(951_868_800, 0), "2000-03-01T00:00:00.000Z");
    assert_eq!(at(4_107_542_400, 0), "2100-03-01T00:00:00.000Z");
    assert_eq!(at(253_402_300_799, 0), "9999-12-31T23:59:59.000Z");
    assert_eq!(at(253_402_300_800, 0), "10000-01-01T00:00:00.000Z");
    let last = time_to_string(Timestamp { nanos: u128::MAX });
    assert!(last.ends_with("Z"));
}

#[test]
fn days_to_dates() {
    let d = date_from_days(0);
    assert_eq!((d.year, d.month, d.day), (1970, 1, 1));
    let d = date_from_days(364);
    assert_eq!((d.year, d.month, d.day), (1970, 12, 31));
    let d = date_from_days(365);
    assert_eq!((d.year, d.month, d.day), (1971, 1, 1));
    let d = date_from_days(18321);
    assert_eq!((d.year, d.month, d.day), (2020, 2, 29));
    let d = date_from_days(18322);
    assert_eq!((d.year, d.month, d.day), (2020, 3, 1));
    let d = date_from_days(11016);
    assert_eq!((d.year, d.month, d.day), (2000, 2, 29));
}
