//! Spans and their events, as the conversion reads them.

use crate::attributes::{Attribute, ValueView};
use crate::time::Timestamp;
use vstd::prelude::*;

verus! {

/// The role of a span in its trace.
#[derive(Clone, Copy, Debug, PartialEq, Eq, Structural)]
pub enum SpanKind {
    Server,
    Consumer,
    Client,
    Producer,
    Internal,
}

/// How a span ended: well or not, and the numeric code that says so.
#[derive(Clone, Copy, Debug)]
pub struct SpanStatus {
    pub ok: bool,
    pub code: i32,
}

/// A timestamped annotation of a span.
pub struct Event {
    pub name: String,
    pub timestamp: Timestamp,
    pub attributes: Vec<Attribute>,
}

/// An event as contracts see it.
pub struct EventView {
    pub name: Seq<char>,
    pub timestamp: Timestamp,
    pub attributes: Seq<(Seq<char>, ValueView)>,
}

impl View for Event {
    type V = EventView;

    open spec fn view(&self) -> EventView {
        EventView {
            name: self.name@,
            timestamp: self.timestamp,
            attributes: self.attributes.deep_view(),
        }
    }
}

impl DeepView for Event {
    type V = EventView;

    open spec fn deep_view(&self) -> EventView {
        self@
    }
}

/// A timed operation of a trace.
pub struct Span {
    pub trace_id: u128,
    pub span_id: u64,
    pub parent_span_id: Option<u64>,
    pub kind: SpanKind,
    pub name: String,
    pub start_time: Timestamp,
    pub end_time: Timestamp,
    pub status: SpanStatus,
    pub attributes: Vec<Attribute>,
    pub events: Vec<Event>,
    pub resource: Vec<Attribute>,
}

/// A span as contracts see it.
pub struct SpanView {
    pub trace_id: u128,
    pub span_id: u64,
    pub parent_span_id: Option<u64>,
    pub kind: SpanKind,
    pub name: Seq<char>,
    pub start_time: Timestamp,
    pub end_time: Timestamp,
    pub status: SpanStatus,
    pub attributes: Seq<(Seq<char>, ValueView)>,
    pub events: Seq<EventView>,
    pub resource: Seq<(Seq<char>, ValueView)>,
}

impl View for Span {
    type V = SpanView;

    open spec fn view(&self) -> SpanView {
        SpanView {
            trace_id: self.trace_id,
            span_id: self.span_id,
            parent_span_id: self.parent_span_id,
            kind: self.kind,
            name: self.name@,
            start_time: self.start_time,
            end_time: self.end_time,
            status: self.status,
            attributes: self.attributes.deep_view(),
            events: self.events.deep_view(),
            resource: self.resource.deep_view(),
        }
    }
}

impl DeepView for Span {
    type V = SpanView;

    open spec fn deep_view(&self) -> SpanView {
        self@
    }
}

} // verus!
