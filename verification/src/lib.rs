//! Telemetry conversion and live-metrics control for Application Insights.
//!
//! A span becomes one request or dependency record and one trace message
//! for each of its events, each in an envelope of its own. The live-metrics
//! controller decides, tick by tick, whether to ping or to post.

pub mod attributes;
pub mod convert;
pub mod models;
pub mod quick_pulse;
pub mod span;
pub mod tags;
pub mod text;
pub mod time;

use crate::attributes::{
    any_key_with_prefix, coerced, collect, collect_attrs, has_key, lemma_collect_unique, merged,
    unique_keys, value_of, Attribute, AttributeMap, ValueView,
    DB_NAME, DB_PREFIX, DB_STATEMENT, DB_SYSTEM, HTTP_HOST, HTTP_METHOD, HTTP_PREFIX, HTTP_ROUTE,
    HTTP_STATUS_CODE, HTTP_TARGET, HTTP_URL, MESSAGING_SYSTEM, NET_PEER_NAME,
};
use crate::convert::{
    attrs_to_properties, duration_text, duration_to_string, elapsed_micros, lemma_remaining_all,
    lemma_remaining_entries, lemma_remaining_unique, properties_of, remaining, span_duration,
    span_id_text, span_id_to_string, Consumed,
};
use crate::models::{
    Data, DataView, Envelope, EnvelopeView, MessageData, MessageDataView, RemoteDependencyData,
    RemoteDependencyDataView, RequestData, RequestDataView, SCHEMA_VERSION,
};
use crate::span::{Event, EventView, Span, SpanKind, SpanStatus, SpanView};
use crate::tags::{
    common_tags, event_tags, get_common_tags, get_tags_for_event, get_tags_for_span, merge_tags,
    span_tags, ContextTagKey, TagMap,
};
use crate::text::{push_signed, signed_decimal};
use crate::time::{time_text, time_to_string};
use vstd::prelude::*;
use vstd::string::*;

verus! {

/// The dependency type of a span that never left the process.
pub const IN_PROC: &'static str = "InProc";

/// The dependency type of a span with HTTP attributes.
pub const HTTP_TYPE: &'static str = "HTTP";

/// The dependency type of a span with database attributes.
pub const DB_TYPE: &'static str = "DB";

/// What a trace message says where the event has no name.
pub const NO_MESSAGE: &'static str = "<no message>";

/// The first of two optional values that is there.
pub open spec fn or_else(first: Option<Seq<char>>, second: Option<Seq<char>>) -> Option<Seq<char>> {
    match first {
        Some(_) => first,
        None => second,
    }
}

/// The name of a request: method and route where the attributes give both,
/// the method alone where they give only it, else the span's own name, and
/// none where that is empty.
pub open spec fn request_name(span_name: Seq<char>, attrs: Seq<(Seq<char>, Seq<char>)>) -> Option<
    Seq<char>,
> {
    match value_of(attrs, HTTP_METHOD@) {
        Some(method) => match value_of(attrs, HTTP_ROUTE@) {
            Some(route) => Some(method + " "@ + route),
            None => Some(method),
        },
        None => own_name(span_name),
    }
}

/// The name of a record where no attribute overrides it: the span's own
/// name, and none where that is empty.
pub open spec fn own_name(span_name: Seq<char>) -> Option<Seq<char>> {
    if span_name.len() > 0 {
        Some(span_name)
    } else {
        None
    }
}

/// The result code of a record: the HTTP status where the attributes give
/// one, else the span's numeric status code.
pub open spec fn result_code(status: SpanStatus, attrs: Seq<(Seq<char>, Seq<char>)>) -> Seq<char> {
    match value_of(attrs, HTTP_STATUS_CODE@) {
        Some(code) => code,
        None => signed_decimal(status.code as int),
    }
}

/// The attributes that a request takes into its own fields.
pub open spec fn request_consumed(attrs: Seq<(Seq<char>, Seq<char>)>) -> Consumed {
    Consumed {
        enduser_id: true,
        http_method: true,
        http_route: has_key(attrs, HTTP_METHOD@),
        http_status_code: true,
        http_url: true,
        http_target: !has_key(attrs, HTTP_URL@),
        ..Consumed::spec_nothing()
    }
}

/// The request that a span and its collected attributes make.
pub open spec fn request_data_with(span: SpanView, attrs: Seq<(Seq<char>, Seq<char>)>)
    -> RequestDataView {
    RequestDataView {
        ver: SCHEMA_VERSION,
        id: span_id_text(span.span_id),
        source: None,
        name: request_name(span.name, attrs),
        duration: duration_text(elapsed_micros(span.start_time, span.end_time)),
        response_code: result_code(span.status, attrs),
        success: span.status.ok,
        url: or_else(value_of(attrs, HTTP_URL@), value_of(attrs, HTTP_TARGET@)),
        properties: properties_of(attrs, request_consumed(attrs)),
    }
}

/// The request that a span makes.
pub open spec fn request_data(span: SpanView) -> RequestDataView {
    request_data_with(span, merged(span.attributes, span.resource))
}

/// The type of a dependency. An internal span is in-process whatever its
/// attributes say; else the database system, the messaging system, or what
/// the attributes' keys hint at, in this order.
pub open spec fn dependency_type(kind: SpanKind, attrs: Seq<(Seq<char>, Seq<char>)>) -> Option<
    Seq<char>,
> {
    if kind == SpanKind::Internal {
        Some(IN_PROC@)
    } else if value_of(attrs, DB_SYSTEM@) is Some {
        value_of(attrs, DB_SYSTEM@)
    } else if value_of(attrs, MESSAGING_SYSTEM@) is Some {
        value_of(attrs, MESSAGING_SYSTEM@)
    } else if any_key_with_prefix(attrs, HTTP_PREFIX@) {
        Some(HTTP_TYPE@)
    } else if any_key_with_prefix(attrs, DB_PREFIX@) {
        Some(DB_TYPE@)
    } else {
        None
    }
}

/// The attributes that a dependency takes into its own fields.
pub open spec fn dependency_consumed(kind: SpanKind, attrs: Seq<(Seq<char>, Seq<char>)>)
    -> Consumed {
    Consumed {
        enduser_id: true,
        http_status_code: true,
        http_url: true,
        db_statement: !has_key(attrs, HTTP_URL@),
        http_host: true,
        net_peer_name: !has_key(attrs, HTTP_HOST@),
        db_name: !has_key(attrs, HTTP_HOST@) && !has_key(attrs, NET_PEER_NAME@),
        db_system: kind != SpanKind::Internal,
        messaging_system: kind != SpanKind::Internal && !has_key(attrs, DB_SYSTEM@),
        ..Consumed::spec_nothing()
    }
}

/// The dependency that a span and its collected attributes make.
pub open spec fn dependency_data_with(span: SpanView, attrs: Seq<(Seq<char>, Seq<char>)>)
    -> RemoteDependencyDataView {
    RemoteDependencyDataView {
        ver: SCHEMA_VERSION,
        name: own_name(span.name),
        id: Some(span_id_text(span.span_id)),
        result_code: Some(result_code(span.status, attrs)),
        duration: duration_text(elapsed_micros(span.start_time, span.end_time)),
        success: Some(span.kind == SpanKind::Internal || span.status.ok),
        data: or_else(value_of(attrs, HTTP_URL@), value_of(attrs, DB_STATEMENT@)),
        target: or_else(
            value_of(attrs, HTTP_HOST@),
            or_else(value_of(attrs, NET_PEER_NAME@), value_of(attrs, DB_NAME@)),
        ),
        type_: dependency_type(span.kind, attrs),
        properties: properties_of(attrs, dependency_consumed(span.kind, attrs)),
    }
}

/// The dependency that a span makes.
pub open spec fn dependency_data(span: SpanView) -> RemoteDependencyDataView {
    dependency_data_with(span, merged(span.attributes, span.resource))
}

/// The trace message that an event makes: its name, or a placeholder where
/// it has none, and all its attributes as custom properties.
pub open spec fn message_data(event: EventView) -> MessageDataView {
    MessageDataView {
        ver: SCHEMA_VERSION,
        message: if event.name.len() == 0 {
            NO_MESSAGE@
        } else {
            event.name
        },
        properties: if collect(coerced(event.attributes)).len() == 0 {
            None
        } else {
            Some(collect(coerced(event.attributes)))
        },
    }
}

/// Whether a span of this kind is a request; every other kind is a
/// dependency.
pub open spec fn is_request_kind(kind: SpanKind) -> bool {
    kind == SpanKind::Server || kind == SpanKind::Consumer
}

/// The record of a span itself.
pub open spec fn primary_data(span: SpanView) -> DataView {
    if is_request_kind(span.kind) {
        DataView::Request(request_data(span))
    } else {
        DataView::RemoteDependency(dependency_data(span))
    }
}

/// An exporter as contracts see it.
pub struct ExporterView {
    pub instrumentation_key: Seq<char>,
    pub common_tags: Map<ContextTagKey, Seq<char>>,
}

/// The envelope of a span's own record, sanitized.
pub open spec fn primary_envelope(exporter: ExporterView, span: SpanView) -> EnvelopeView {
    (EnvelopeView {
        name: primary_data(span).schema_name(),
        time: time_text(span.start_time),
        i_key: exporter.instrumentation_key,
        tags: exporter.common_tags.union_prefer_right(
            span_tags(span, merged(span.attributes, span.resource)),
        ),
        data: primary_data(span),
    }).sanitized()
}

/// The envelope of the message of one of a span's events, sanitized.
pub open spec fn message_envelope(exporter: ExporterView, span: SpanView, event: EventView)
    -> EnvelopeView {
    (EnvelopeView {
        name: DataView::Message(message_data(event)).schema_name(),
        time: time_text(event.timestamp),
        i_key: exporter.instrumentation_key,
        tags: exporter.common_tags.union_prefer_right(event_tags(span)),
        data: DataView::Message(message_data(event)),
    }).sanitized()
}

/// The envelopes of a span: that of its own record, then one for each of
/// its events, in their order.
pub open spec fn envelopes(exporter: ExporterView, span: SpanView) -> Seq<EnvelopeView> {
    seq![primary_envelope(exporter, span)] + Seq::new(
        span.events.len(),
        |i: int| message_envelope(exporter, span, span.events[i]),
    )
}

/// The envelopes of a batch of spans: those of each span, in the batch's
/// order.
pub open spec fn batch_envelopes(exporter: ExporterView, batch: Seq<SpanView>) -> Seq<EnvelopeView>
    decreases batch.len(),
{
    if batch.len() == 0 {
        Seq::empty()
    } else {
        batch_envelopes(exporter, batch.drop_last()) + envelopes(exporter, batch.last())
    }
}

/// The kind of a span alone decides its record: a request for a server or a
/// consumer, a dependency for a client, a producer or an internal span.
pub proof fn lemma_kind_decides_record(exporter: ExporterView, span: SpanView)
    ensures
        (span.kind == SpanKind::Server || span.kind == SpanKind::Consumer) <==> primary_data(
            span,
        ) is Request,
        (span.kind == SpanKind::Client || span.kind == SpanKind::Producer || span.kind
            == SpanKind::Internal) <==> primary_data(span) is RemoteDependency,
        !(primary_data(span) is Message),
        primary_data(span) is Request <==> envelopes(exporter, span)[0].data is Request,
        primary_data(span) is RemoteDependency <==> envelopes(exporter, span)[0].data
            is RemoteDependency,
{
}

/// The name of a dependency is the span's own name, and none where that is
/// empty: no attribute of the span or its resource changes it.
pub proof fn lemma_dependency_name(span: SpanView, other: SpanView)
    requires
        other.name == span.name,
    ensures
        dependency_data(span).name == own_name(span.name),
        span.name.len() == 0 <==> dependency_data(span).name is None,
        dependency_data(other).name == dependency_data(span).name,
{
}

/// The dependency of an internal span is in-process and a success, whatever
/// its status and its attributes, before and after sanitizing.
pub proof fn lemma_internal_dependency(exporter: ExporterView, span: SpanView)
    requires
        span.kind == SpanKind::Internal,
    ensures
        dependency_data(span).type_ == Some(IN_PROC@),
        dependency_data(span).success == Some(true),
        envelopes(exporter, span)[0].data is RemoteDependency,
        envelopes(exporter, span)[0].data->RemoteDependency_0.type_ == Some(IN_PROC@),
        envelopes(exporter, span)[0].data->RemoteDependency_0.success == Some(true),
{
    reveal_strlit("InProc");
}

/// The custom properties of a span's record form a mapping, hold no
/// attribute that the record or the tags have taken, and hold every other
/// attribute of the span and its resource with the value that the mapping of
/// attributes gives it.
pub proof fn lemma_properties_of_span(span: SpanView)
    ensures
        ({
            let attrs = merged(span.attributes, span.resource);
            let taken = if is_request_kind(span.kind) {
                request_consumed(attrs)
            } else {
                dependency_consumed(span.kind, attrs)
            };
            let kept = remaining(attrs, taken);
            &&& unique_keys(attrs)
            &&& unique_keys(kept)
            &&& is_request_kind(span.kind) ==> request_data(span).properties == properties_of(
                attrs,
                taken,
            )
            &&& !is_request_kind(span.kind) ==> dependency_data(span).properties == properties_of(
                attrs,
                taken,
            )
            &&& forall|i: int|
                0 <= i < attrs.len() ==> taken.takes((#[trigger] attrs[i]).0) || kept.contains(
                    attrs[i],
                )
            &&& forall|j: int|
                0 <= j < kept.len() ==> attrs.contains(#[trigger] kept[j]) && !taken.takes(
                    kept[j].0,
                )
        }),
{
    let attrs = merged(span.attributes, span.resource);
    let taken = if is_request_kind(span.kind) {
        request_consumed(attrs)
    } else {
        dependency_consumed(span.kind, attrs)
    };
    lemma_collect_unique(coerced(span.resource + span.attributes));
    lemma_remaining_unique(attrs, taken);
    lemma_remaining_entries(attrs, taken);
}

/// A span gives one envelope and one more for each event, and the name of
/// each envelope agrees with its payload.
pub proof fn lemma_envelopes_well_formed(exporter: ExporterView, span: SpanView)
    ensures
        envelopes(exporter, span).len() == 1 + span.events.len(),
        forall|i: int|
            0 <= i < envelopes(exporter, span).len() ==> (#[trigger] envelopes(
                exporter,
                span,
            )[i]).well_formed(),
        forall|i: int|
            1 <= i < envelopes(exporter, span).len() ==> (#[trigger] envelopes(
                exporter,
                span,
            )[i]).data is Message,
{
    let all = envelopes(exporter, span);
    assert forall|i: int| 0 <= i < all.len() implies (#[trigger] all[i]).well_formed() by {
        if i == 0 {
            let raw = EnvelopeView {
                name: primary_data(span).schema_name(),
                time: time_text(span.start_time),
                i_key: exporter.instrumentation_key,
                tags: exporter.common_tags.union_prefer_right(
                    span_tags(span, merged(span.attributes, span.resource)),
                ),
                data: primary_data(span),
            };
            raw.lemma_sanitize_keeps_agreement();
        } else {
            let event = span.events[i - 1];
            let raw = EnvelopeView {
                name: DataView::Message(message_data(event)).schema_name(),
                time: time_text(event.timestamp),
                i_key: exporter.instrumentation_key,
                tags: exporter.common_tags.union_prefer_right(event_tags(span)),
                data: DataView::Message(message_data(event)),
            };
            raw.lemma_sanitize_keeps_agreement();
        }
    }
}

/// Sanitizing the envelopes of a span once more changes none of them.
pub proof fn lemma_envelopes_sanitized(exporter: ExporterView, span: SpanView)
    ensures
        forall|i: int|
            0 <= i < envelopes(exporter, span).len() ==> (#[trigger] envelopes(
                exporter,
                span,
            )[i]).sanitized() == envelopes(exporter, span)[i],
{
    let all = envelopes(exporter, span);
    assert forall|i: int| 0 <= i < all.len() implies (#[trigger] all[i]).sanitized() == all[i] by {
        if i == 0 {
            let raw = EnvelopeView {
                name: primary_data(span).schema_name(),
                time: time_text(span.start_time),
                i_key: exporter.instrumentation_key,
                tags: exporter.common_tags.union_prefer_right(
                    span_tags(span, merged(span.attributes, span.resource)),
                ),
                data: primary_data(span),
            };
            raw.lemma_sanitize_idempotent();
        } else {
            let event = span.events[i - 1];
            let raw = EnvelopeView {
                name: DataView::Message(message_data(event)).schema_name(),
                time: time_text(event.timestamp),
                i_key: exporter.instrumentation_key,
                tags: exporter.common_tags.union_prefer_right(event_tags(span)),
                data: DataView::Message(message_data(event)),
            };
            raw.lemma_sanitize_idempotent();
        }
    }
}

/// Writes the result code of a record.
fn result_code_of(status: SpanStatus, attrs: &AttributeMap) -> (code: String)
    ensures
        code@ == result_code(status, attrs@),
{
    match attrs.get(HTTP_STATUS_CODE) {
        Some(code) => code.clone(),
        None => {
            let mut code = String::new();
            push_signed(&mut code, status.code as i64);
            assert(code@ =~= signed_decimal(status.code as int));
            code
        },
    }
}

/// Copies the name of a span, and gives none where it is empty.
fn own_name_of(span: &Span) -> (name: Option<String>)
    ensures
        name.deep_view() == own_name(span@.name),
{
    if span.name.as_str().is_empty() {
        None
    } else {
        Some(span.name.clone())
    }
}

/// The value under the first of two keys that is there.
fn first_of(attrs: &AttributeMap, first: &str, second: &str) -> (value: Option<String>)
    ensures
        value.deep_view() == or_else(value_of(attrs@, first@), value_of(attrs@, second@)),
{
    match attrs.get(first) {
        Some(value) => Some(value.clone()),
        None => match attrs.get(second) {
            Some(value) => Some(value.clone()),
            None => None,
        },
    }
}

impl RequestData {
    /// The request that a span makes.
    pub fn from(span: &Span) -> (data: RequestData)
        ensures
            data@ == request_data(span@),
    {
        let attrs = collect_attrs(&span.attributes, &span.resource);
        RequestData::from_attrs(span, &attrs)
    }

    /// The request that a span makes with the attributes collected for it.
    pub fn from_attrs(span: &Span, attrs: &AttributeMap) -> (data: RequestData)
        ensures
            data@ == request_data_with(span@, attrs@),
    {
        let name = match attrs.get(HTTP_METHOD) {
            Some(method) => match attrs.get(HTTP_ROUTE) {
                Some(route) => {
                    let mut name = method.clone();
                    name.append(" ");
                    name.append(route.as_str());
                    Some(name)
                },
                None => Some(method.clone()),
            },
            None => own_name_of(span),
        };
        let consumed = Consumed {
            enduser_id: true,
            http_method: true,
            http_route: attrs.contains_key(HTTP_METHOD),
            http_status_code: true,
            http_url: true,
            http_target: !attrs.contains_key(HTTP_URL),
            ..Consumed::nothing()
        };
        RequestData {
            ver: SCHEMA_VERSION,
            id: span_id_to_string(span.span_id),
            source: None,
            name: name,
            duration: duration_to_string(span_duration(span.start_time, span.end_time)),
            response_code: result_code_of(span.status, attrs),
            success: span.status.ok,
            url: first_of(attrs, HTTP_URL, HTTP_TARGET),
            properties: attrs_to_properties(attrs, consumed),
        }
    }
}

impl RemoteDependencyData {
    /// The dependency that a span makes.
    pub fn from(span: &Span) -> (data: RemoteDependencyData)
        ensures
            data@ == dependency_data(span@),
    {
        let attrs = collect_attrs(&span.attributes, &span.resource);
        RemoteDependencyData::from_attrs(span, &attrs)
    }

    /// The dependency that a span makes with the attributes collected for
    /// it.
    pub fn from_attrs(span: &Span, attrs: &AttributeMap) -> (data: RemoteDependencyData)
        ensures
            data@ == dependency_data_with(span@, attrs@),
    {
        let internal = match span.kind {
            SpanKind::Internal => true,
            _ => false,
        };
        let target = match attrs.get(HTTP_HOST) {
            Some(host) => Some(host.clone()),
            None => first_of(attrs, NET_PEER_NAME, DB_NAME),
        };
        let type_ = if internal {
            Some(String::from_str(IN_PROC))
        } else {
            match attrs.get(DB_SYSTEM) {
                Some(system) => Some(system.clone()),
                None => match attrs.get(MESSAGING_SYSTEM) {
                    Some(system) => Some(system.clone()),
                    None => if attrs.any_key_starts_with(HTTP_PREFIX) {
                        Some(String::from_str(HTTP_TYPE))
                    } else if attrs.any_key_starts_with(DB_PREFIX) {
                        Some(String::from_str(DB_TYPE))
                    } else {
                        None
                    },
                },
            }
        };
        let has_host = attrs.contains_key(HTTP_HOST);
        let consumed = Consumed {
            enduser_id: true,
            http_status_code: true,
            http_url: true,
            db_statement: !attrs.contains_key(HTTP_URL),
            http_host: true,
            net_peer_name: !has_host,
            db_name: !has_host && !attrs.contains_key(NET_PEER_NAME),
            db_system: !internal,
            messaging_system: !internal && !attrs.contains_key(DB_SYSTEM),
            ..Consumed::nothing()
        };
        RemoteDependencyData {
            ver: SCHEMA_VERSION,
            name: own_name_of(span),
            id: Some(span_id_to_string(span.span_id)),
            result_code: Some(result_code_of(span.status, attrs)),
            duration: duration_to_string(span_duration(span.start_time, span.end_time)),
            success: Some(internal || span.status.ok),
            data: first_of(attrs, HTTP_URL, DB_STATEMENT),
            target: target,
            type_: type_,
            properties: attrs_to_properties(attrs, consumed),
        }
    }
}

impl MessageData {
    /// The trace message that an event makes.
    pub fn from(event: &Event) -> (data: MessageData)
        ensures
            data@ == message_data(event@),
    {
        let none: Vec<Attribute> = Vec::new();
        assert(none.deep_view() =~= Seq::<(Seq<char>, ValueView)>::empty());
        assert(event.attributes.deep_view() + none.deep_view() =~= event.attributes.deep_view());
        let attrs = collect_attrs(&none, &event.attributes);
        proof {
            lemma_remaining_all(attrs@);
        }
        MessageData {
            ver: SCHEMA_VERSION,
            message: if event.name.as_str().is_empty() {
                String::from_str(NO_MESSAGE)
            } else {
                event.name.clone()
            },
            properties: attrs_to_properties(&attrs, Consumed::nothing()),
        }
    }
}

/// What the upload of a batch came to.
#[derive(Clone, Copy, Debug, PartialEq, Eq, Structural)]
pub enum UploadResponse {
    Success,
    Retry,
    NoRetry,
}

/// What the export of a batch came to, as the tracing SDK is told.
#[derive(Clone, Copy, Debug, PartialEq, Eq, Structural)]
pub enum ExportResult {
    Success,
    FailedRetryable,
    FailedNotRetryable,
}

impl vstd::std_specs::convert::FromSpecImpl<UploadResponse> for ExportResult {
    open spec fn obeys_from_spec() -> bool {
        true
    }

    open spec fn from_spec(response: UploadResponse) -> ExportResult {
        match response {
            UploadResponse::Success => ExportResult::Success,
            UploadResponse::Retry => ExportResult::FailedRetryable,
            UploadResponse::NoRetry => ExportResult::FailedNotRetryable,
        }
    }
}

impl From<UploadResponse> for ExportResult {
    /// The outcome of an upload, one for one.
    fn from(response: UploadResponse) -> (result: ExportResult) {
        match response {
            UploadResponse::Success => ExportResult::Success,
            UploadResponse::Retry => ExportResult::FailedRetryable,
            UploadResponse::NoRetry => ExportResult::FailedNotRetryable,
        }
    }
}

/// Turns spans into envelopes for one instrumentation key.
pub struct Exporter {
    instrumentation_key: String,
    common_tags: TagMap,
}

impl View for Exporter {
    type V = ExporterView;

    closed spec fn view(&self) -> ExporterView {
        ExporterView {
            instrumentation_key: self.instrumentation_key@,
            common_tags: self.common_tags@,
        }
    }
}

impl Exporter {
    /// An exporter for the instrumentation key, with the common tags of
    /// every process.
    pub fn new(instrumentation_key: String) -> (exporter: Exporter)
        ensures
            exporter@ == (ExporterView {
                instrumentation_key: instrumentation_key@,
                common_tags: common_tags(),
            }),
    {
        Exporter { instrumentation_key: instrumentation_key, common_tags: get_common_tags() }
    }

    /// The exporter with an application version among its common tags.
    pub fn with_application_version(self, ver: String) -> (exporter: Exporter)
        ensures
            exporter@ == (ExporterView {
                instrumentation_key: self@.instrumentation_key,
                common_tags: self@.common_tags.insert(ContextTagKey::ApplicationVersion, ver@),
            }),
    {
        let mut exporter = self;
        exporter.common_tags.insert(ContextTagKey::ApplicationVersion, ver);
        exporter
    }

    /// The exporter with a role name among its common tags: the name under
    /// which the process appears on the application map.
    pub fn with_role_name(self, role: String) -> (exporter: Exporter)
        ensures
            exporter@ == (ExporterView {
                instrumentation_key: self@.instrumentation_key,
                common_tags: self@.common_tags.insert(ContextTagKey::CloudRole, role@),
            }),
    {
        let mut exporter = self;
        exporter.common_tags.insert(ContextTagKey::CloudRole, role);
        exporter
    }

    /// The exporter with a role instance among its common tags: the one of
    /// several processes of a role that this is.
    pub fn with_role_instance(self, instance: String) -> (exporter: Exporter)
        ensures
            exporter@ == (ExporterView {
                instrumentation_key: self@.instrumentation_key,
                common_tags: self@.common_tags.insert(ContextTagKey::CloudRoleInstance, instance@),
            }),
    {
        let mut exporter = self;
        exporter.common_tags.insert(ContextTagKey::CloudRoleInstance, instance);
        exporter
    }

    /// The instrumentation key.
    pub fn instrumentation_key(&self) -> (key: &String)
        ensures
            key@ == self@.instrumentation_key,
    {
        &self.instrumentation_key
    }

    /// The tags that every envelope of this exporter carries.
    pub fn common_tags(&self) -> (tags: &TagMap)
        ensures
            tags@ == self@.common_tags,
    {
        &self.common_tags
    }

    /// The envelope of a span's own record.
    fn primary(&self, span: &Span) -> (envelope: Envelope)
        ensures
            envelope@ == primary_envelope(self@, span@),
    {
        let attrs = collect_attrs(&span.attributes, &span.resource);
        let data = match span.kind {
            SpanKind::Server | SpanKind::Consumer => Data::Request(
                RequestData::from_attrs(span, &attrs),
            ),
            SpanKind::Client | SpanKind::Producer | SpanKind::Internal => Data::RemoteDependency(
                RemoteDependencyData::from_attrs(span, &attrs),
            ),
        };
        let tags = get_tags_for_span(span, &attrs);
        let mut envelope = Envelope {
            name: String::from_str(data.schema_name()),
            time: time_to_string(span.start_time),
            i_key: self.instrumentation_key.clone(),
            tags: merge_tags(self.common_tags.clone(), tags),
            data: data,
        };
        envelope.sanitize();
        envelope
    }

    /// The envelope of the message of one of a span's events.
    fn message(&self, span: &Span, event: &Event) -> (envelope: Envelope)
        ensures
            envelope@ == message_envelope(self@, span@, event@),
    {
        let data = Data::Message(MessageData::from(event));
        let mut envelope = Envelope {
            name: String::from_str(data.schema_name()),
            time: time_to_string(event.timestamp),
            i_key: self.instrumentation_key.clone(),
            tags: merge_tags(self.common_tags.clone(), get_tags_for_event(span)),
            data: data,
        };
        envelope.sanitize();
        envelope
    }

    /// The envelopes of a span: that of its own record, then one for each
    /// of its events.
    pub fn create_envelopes(&self, span: &Span) -> (result: Vec<Envelope>)
        ensures
            result.deep_view() == envelopes(self@, span@),
    {
        let mut result: Vec<Envelope> = Vec::new();
        result.push(self.primary(span));
        let ghost all = envelopes(self@, span@);
        let n = span.events.len();
        let mut i: usize = 0;
        assert(result.deep_view() =~= all.take(1));
        while i < n
            invariant
                i <= n,
                n == span.events.len(),
                all == envelopes(self@, span@),
                result.deep_view() == all.take(i + 1),
            decreases n - i,
        {
            let ghost before = result.deep_view();
            let envelope = self.message(span, &span.events[i]);
            assert(envelope@ == all[i + 1]) by {
                assert(span@.events[i as int] == span.events@[i as int]@);
            }
            result.push(envelope);
            assert(result.deep_view() =~= before.push(all[i + 1]));
            assert(all.take(i + 2) =~= all.take(i + 1).push(all[i + 1]));
            i += 1;
        }
        assert(all.take(n + 1) =~= all);
        result
    }

    /// The envelopes of a batch of spans, in the batch's order.
    pub fn create_batch_envelopes(&self, batch: &Vec<Span>) -> (result: Vec<Envelope>)
        ensures
            result.deep_view() == batch_envelopes(self@, batch.deep_view()),
    {
        let ghost spans = batch.deep_view();
        let mut result: Vec<Envelope> = Vec::new();
        let mut i: usize = 0;
        assert(result.deep_view() =~= batch_envelopes(self@, spans.take(0)));
        while i < batch.len()
            invariant
                i <= batch.len(),
                spans == batch.deep_view(),
                result.deep_view() == batch_envelopes(self@, spans.take(i as int)),
            decreases batch.len() - i,
        {
            let ghost before = result.deep_view();
            let mut more = self.create_envelopes(&batch[i]);
            let ghost added = more.deep_view();
            result.append(&mut more);
            assert(result.deep_view() =~= before + added);
            assert(spans.take(i + 1).drop_last() =~= spans.take(i as int));
            i += 1;
        }
        assert(spans.take(i as int) =~= spans);
        result
    }
}

} // verus!
