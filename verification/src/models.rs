//! The records that the backend takes, and the limits it puts on them.

use crate::attributes::{find, find_key, has_key, lemma_find, unique_keys, KeyValue};
use crate::tags::{lemma_sanitized_tags_idempotent, sanitized_tags, ContextTagKey, TagMap};
use crate::text::{truncate_optional, truncate_string, truncated, truncated_option};
use vstd::prelude::*;
use vstd::string::*;

verus! {

/// The schema version that every record announces.
pub const SCHEMA_VERSION: i32 = 2;

/// The envelope name of a request.
pub const REQUEST_NAME: &'static str = "Microsoft.ApplicationInsights.Request";

/// The envelope name of a dependency.
pub const REMOTE_DEPENDENCY_NAME: &'static str = "Microsoft.ApplicationInsights.RemoteDependency";

/// The envelope name of a trace message.
pub const MESSAGE_NAME: &'static str = "Microsoft.ApplicationInsights.Message";

// The backend's limits, in characters unless said otherwise.
pub const MAX_ENVELOPE_NAME_LENGTH: usize = 1024;

pub const MAX_TIME_LENGTH: usize = 64;

pub const MAX_INSTRUMENTATION_KEY_LENGTH: usize = 40;

pub const MAX_ID_LENGTH: usize = 128;

pub const MAX_NAME_LENGTH: usize = 1024;

pub const MAX_SOURCE_LENGTH: usize = 1024;

pub const MAX_URL_LENGTH: usize = 2048;

pub const MAX_CODE_LENGTH: usize = 1024;

pub const MAX_DATA_LENGTH: usize = 8192;

pub const MAX_TYPE_LENGTH: usize = 1024;

pub const MAX_TARGET_LENGTH: usize = 1024;

pub const MAX_MESSAGE_LENGTH: usize = 32768;

pub const MAX_PROPERTY_KEY_LENGTH: usize = 150;

pub const MAX_PROPERTY_VALUE_LENGTH: usize = 8192;

/// The most custom properties that a record keeps.
pub const MAX_PROPERTY_COUNT: usize = 200;

/// The entries that the backend takes of a list of custom properties: keys
/// and values cut down to their limits, and an entry dropped where its key
/// is empty, where an earlier entry has the same key once cut down, or where
/// the record is full.
pub open spec fn sanitized_entries(p: Seq<(Seq<char>, Seq<char>)>) -> Seq<(Seq<char>, Seq<char>)>
    decreases p.len(),
{
    if p.len() == 0 {
        Seq::empty()
    } else {
        let rest = sanitized_entries(p.drop_last());
        let key = truncated(p.last().0, MAX_PROPERTY_KEY_LENGTH as nat);
        let value = truncated(p.last().1, MAX_PROPERTY_VALUE_LENGTH as nat);
        if key.len() == 0 || has_key(rest, key) || rest.len() >= MAX_PROPERTY_COUNT {
            rest
        } else {
            rest.push((key, value))
        }
    }
}

/// Custom properties as the backend takes them; none where no entry is left.
pub open spec fn sanitized_properties(p: Option<Seq<(Seq<char>, Seq<char>)>>) -> Option<
    Seq<(Seq<char>, Seq<char>)>,
> {
    match p {
        Some(entries) => {
            let kept = sanitized_entries(entries);
            if kept.len() == 0 {
                None
            } else {
                Some(kept)
            }
        },
        None => None,
    }
}

/// Entries that are within every limit.
pub open spec fn sane_entries(p: Seq<(Seq<char>, Seq<char>)>) -> bool {
    &&& unique_keys(p)
    &&& p.len() <= MAX_PROPERTY_COUNT
    &&& forall|i: int|
        0 <= i < p.len() ==> 0 < (#[trigger] p[i]).0.len() <= MAX_PROPERTY_KEY_LENGTH && p[i].1.len()
            <= MAX_PROPERTY_VALUE_LENGTH
}

/// What sanitizing leaves is within every limit.
pub proof fn lemma_sanitized_entries_sane(p: Seq<(Seq<char>, Seq<char>)>)
    ensures
        sane_entries(sanitized_entries(p)),
    decreases p.len(),
{
    if p.len() > 0 {
        lemma_sanitized_entries_sane(p.drop_last());
        let rest = sanitized_entries(p.drop_last());
        let key = truncated(p.last().0, MAX_PROPERTY_KEY_LENGTH as nat);
        lemma_find(rest, key);
    }
}

/// Entries that are within every limit are left as they are.
pub proof fn lemma_sane_entries_kept(p: Seq<(Seq<char>, Seq<char>)>)
    requires
        sane_entries(p),
    ensures
        sanitized_entries(p) == p,
    decreases p.len(),
{
    if p.len() > 0 {
        let front = p.drop_last();
        assert forall|i: int| 0 <= i < front.len() implies 0 < (#[trigger] front[i]).0.len()
            <= MAX_PROPERTY_KEY_LENGTH && front[i].1.len() <= MAX_PROPERTY_VALUE_LENGTH by {
            assert(front[i] == p[i]);
        }
        assert(unique_keys(front)) by {
            assert forall|i: int, j: int| 0 <= i < j < front.len() implies front[i].0
                != front[j].0 by {
                assert(front[i] == p[i] && front[j] == p[j]);
            }
        }
        lemma_sane_entries_kept(front);
        let last = p[p.len() - 1];
        assert(truncated(last.0, MAX_PROPERTY_KEY_LENGTH as nat) == last.0);
        assert(truncated(last.1, MAX_PROPERTY_VALUE_LENGTH as nat) == last.1);
        lemma_find(front, last.0);
        if has_key(front, last.0) {
            let i = find(front, last.0)->0;
            assert(front[i] == p[i]);
        }
        assert(front.push(last) =~= p);
    }
}

/// Sanitizing custom properties a second time changes nothing.
pub proof fn lemma_sanitized_properties_idempotent(p: Option<Seq<(Seq<char>, Seq<char>)>>)
    ensures
        sanitized_properties(sanitized_properties(p)) == sanitized_properties(p),
{
    match p {
        Some(entries) => {
            lemma_sanitized_entries_sane(entries);
            lemma_sane_entries_kept(sanitized_entries(entries));
        },
        None => {},
    }
}

/// Brings custom properties within the backend's limits.
pub fn sanitize_properties(properties: &mut Option<Vec<KeyValue>>)
    ensures
        final(properties).deep_view() == sanitized_properties(old(properties).deep_view()),
{
    match properties.take() {
        Some(entries) => {
            let ghost p = entries.deep_view();
            let mut kept: Vec<KeyValue> = Vec::new();
            let mut i: usize = 0;
            assert(kept.deep_view() =~= sanitized_entries(p.take(0)));
            while i < entries.len()
                invariant
                    i <= entries.len(),
                    p == entries.deep_view(),
                    kept.deep_view() == sanitized_entries(p.take(i as int)),
                    kept.len() <= MAX_PROPERTY_COUNT,
                decreases entries.len() - i,
            {
                assert(p.take(i + 1).drop_last() =~= p.take(i as int));
                let mut key = entries[i].key.clone();
                let mut value = entries[i].value.clone();
                truncate_string(&mut key, MAX_PROPERTY_KEY_LENGTH);
                truncate_string(&mut value, MAX_PROPERTY_VALUE_LENGTH);
                let ghost before = kept.deep_view();
                let ghost k = key@;
                let ghost v = value@;
                if !key.as_str().is_empty() && kept.len() < MAX_PROPERTY_COUNT && find_key(
                    &kept,
                    &key,
                ).is_none() {
                    kept.push(KeyValue { key: key, value: value });
                    assert(kept.deep_view() =~= before.push((k, v)));
                }
                i += 1;
            }
            assert(p.take(i as int) =~= p);
            if kept.len() > 0 {
                *properties = Some(kept);
            }
        },
        None => {},
    }
}

/// A request: an operation that the process served.
pub struct RequestData {
    pub ver: i32,
    pub id: String,
    pub source: Option<String>,
    pub name: Option<String>,
    pub duration: String,
    pub response_code: String,
    pub success: bool,
    pub url: Option<String>,
    pub properties: Option<Vec<KeyValue>>,
}

/// A request as contracts see it.
pub struct RequestDataView {
    pub ver: i32,
    pub id: Seq<char>,
    pub source: Option<Seq<char>>,
    pub name: Option<Seq<char>>,
    pub duration: Seq<char>,
    pub response_code: Seq<char>,
    pub success: bool,
    pub url: Option<Seq<char>>,
    pub properties: Option<Seq<(Seq<char>, Seq<char>)>>,
}

impl View for RequestData {
    type V = RequestDataView;

    open spec fn view(&self) -> RequestDataView {
        RequestDataView {
            ver: self.ver,
            id: self.id@,
            source: self.source.deep_view(),
            name: self.name.deep_view(),
            duration: self.duration@,
            response_code: self.response_code@,
            success: self.success,
            url: self.url.deep_view(),
            properties: self.properties.deep_view(),
        }
    }
}

impl RequestDataView {
    /// The request within the backend's limits.
    pub open spec fn sanitized(self) -> RequestDataView {
        RequestDataView {
            ver: self.ver,
            id: truncated(self.id, MAX_ID_LENGTH as nat),
            source: truncated_option(self.source, MAX_SOURCE_LENGTH as nat),
            name: truncated_option(self.name, MAX_NAME_LENGTH as nat),
            duration: self.duration,
            response_code: truncated(self.response_code, MAX_CODE_LENGTH as nat),
            success: self.success,
            url: truncated_option(self.url, MAX_URL_LENGTH as nat),
            properties: sanitized_properties(self.properties),
        }
    }

    /// Sanitizing a request a second time changes nothing.
    pub proof fn lemma_sanitize_idempotent(self)
        ensures
            self.sanitized().sanitized() == self.sanitized(),
    {
        lemma_sanitized_properties_idempotent(self.properties);
    }
}

impl RequestData {
    /// Brings the request within the backend's limits.
    pub fn sanitize(&mut self)
        ensures
            final(self)@ == old(self)@.sanitized(),
    {
        truncate_string(&mut self.id, MAX_ID_LENGTH);
        truncate_optional(&mut self.source, MAX_SOURCE_LENGTH);
        truncate_optional(&mut self.name, MAX_NAME_LENGTH);
        truncate_string(&mut self.response_code, MAX_CODE_LENGTH);
        truncate_optional(&mut self.url, MAX_URL_LENGTH);
        sanitize_properties(&mut self.properties);
    }
}

/// A dependency: an operation that the process asked of another, or did
/// within itself.
pub struct RemoteDependencyData {
    pub ver: i32,
    pub name: Option<String>,
    pub id: Option<String>,
    pub result_code: Option<String>,
    pub duration: String,
    pub success: Option<bool>,
    pub data: Option<String>,
    pub target: Option<String>,
    pub type_: Option<String>,
    pub properties: Option<Vec<KeyValue>>,
}

/// A dependency as contracts see it.
pub struct RemoteDependencyDataView {
    pub ver: i32,
    pub name: Option<Seq<char>>,
    pub id: Option<Seq<char>>,
    pub result_code: Option<Seq<char>>,
    pub duration: Seq<char>,
    pub success: Option<bool>,
    pub data: Option<Seq<char>>,
    pub target: Option<Seq<char>>,
    pub type_: Option<Seq<char>>,
    pub properties: Option<Seq<(Seq<char>, Seq<char>)>>,
}

impl View for RemoteDependencyData {
    type V = RemoteDependencyDataView;

    open spec fn view(&self) -> RemoteDependencyDataView {
        RemoteDependencyDataView {
            ver: self.ver,
            name: self.name.deep_view(),
            id: self.id.deep_view(),
            result_code: self.result_code.deep_view(),
            duration: self.duration@,
            success: self.success,
            data: self.data.deep_view(),
            target: self.target.deep_view(),
            type_: self.type_.deep_view(),
            properties: self.properties.deep_view(),
        }
    }
}

impl RemoteDependencyDataView {
    /// The dependency within the backend's limits.
    pub open spec fn sanitized(self) -> RemoteDependencyDataView {
        RemoteDependencyDataView {
            ver: self.ver,
            name: truncated_option(self.name, MAX_NAME_LENGTH as nat),
            id: truncated_option(self.id, MAX_ID_LENGTH as nat),
            result_code: truncated_option(self.result_code, MAX_CODE_LENGTH as nat),
            duration: self.duration,
            success: self.success,
            data: truncated_option(self.data, MAX_DATA_LENGTH as nat),
            target: truncated_option(self.target, MAX_TARGET_LENGTH as nat),
            type_: truncated_option(self.type_, MAX_TYPE_LENGTH as nat),
            properties: sanitized_properties(self.properties),
        }
    }

    /// Sanitizing a dependency a second time changes nothing.
    pub proof fn lemma_sanitize_idempotent(self)
        ensures
            self.sanitized().sanitized() == self.sanitized(),
    {
        lemma_sanitized_properties_idempotent(self.properties);
    }
}

impl RemoteDependencyData {
    /// Brings the dependency within the backend's limits.
    pub fn sanitize(&mut self)
        ensures
            final(self)@ == old(self)@.sanitized(),
    {
        truncate_optional(&mut self.name, MAX_NAME_LENGTH);
        truncate_optional(&mut self.id, MAX_ID_LENGTH);
        truncate_optional(&mut self.result_code, MAX_CODE_LENGTH);
        truncate_optional(&mut self.data, MAX_DATA_LENGTH);
        truncate_optional(&mut self.target, MAX_TARGET_LENGTH);
        truncate_optional(&mut self.type_, MAX_TYPE_LENGTH);
        sanitize_properties(&mut self.properties);
    }
}

/// A trace message: what an event of a span says.
pub struct MessageData {
    pub ver: i32,
    pub message: String,
    pub properties: Option<Vec<KeyValue>>,
}

/// A trace message as contracts see it.
pub struct MessageDataView {
    pub ver: i32,
    pub message: Seq<char>,
    pub properties: Option<Seq<(Seq<char>, Seq<char>)>>,
}

impl View for MessageData {
    type V = MessageDataView;

    open spec fn view(&self) -> MessageDataView {
        MessageDataView {
            ver: self.ver,
            message: self.message@,
            properties: self.properties.deep_view(),
        }
    }
}

impl MessageDataView {
    /// The message within the backend's limits.
    pub open spec fn sanitized(self) -> MessageDataView {
        MessageDataView {
            ver: self.ver,
            message: truncated(self.message, MAX_MESSAGE_LENGTH as nat),
            properties: sanitized_properties(self.properties),
        }
    }

    /// Sanitizing a message a second time changes nothing.
    pub proof fn lemma_sanitize_idempotent(self)
        ensures
            self.sanitized().sanitized() == self.sanitized(),
    {
        lemma_sanitized_properties_idempotent(self.properties);
    }
}

impl MessageData {
    /// Brings the message within the backend's limits.
    pub fn sanitize(&mut self)
        ensures
            final(self)@ == old(self)@.sanitized(),
    {
        truncate_string(&mut self.message, MAX_MESSAGE_LENGTH);
        sanitize_properties(&mut self.properties);
    }
}

/// The payload of an envelope: exactly one of the three records.
pub enum Data {
    Request(RequestData),
    RemoteDependency(RemoteDependencyData),
    Message(MessageData),
}

/// A payload as contracts see it.
pub enum DataView {
    Request(RequestDataView),
    RemoteDependency(RemoteDependencyDataView),
    Message(MessageDataView),
}

impl View for Data {
    type V = DataView;

    open spec fn view(&self) -> DataView {
        match self {
            Data::Request(data) => DataView::Request(data@),
            Data::RemoteDependency(data) => DataView::RemoteDependency(data@),
            Data::Message(data) => DataView::Message(data@),
        }
    }
}

impl DataView {
    /// The payload within the backend's limits.
    pub open spec fn sanitized(self) -> DataView {
        match self {
            DataView::Request(data) => DataView::Request(data.sanitized()),
            DataView::RemoteDependency(data) => DataView::RemoteDependency(data.sanitized()),
            DataView::Message(data) => DataView::Message(data.sanitized()),
        }
    }

    /// The envelope name that goes with the payload.
    pub open spec fn schema_name(self) -> Seq<char> {
        match self {
            DataView::Request(_) => REQUEST_NAME@,
            DataView::RemoteDependency(_) => REMOTE_DEPENDENCY_NAME@,
            DataView::Message(_) => MESSAGE_NAME@,
        }
    }

    /// Sanitizing a payload a second time changes nothing.
    pub proof fn lemma_sanitize_idempotent(self)
        ensures
            self.sanitized().sanitized() == self.sanitized(),
    {
        match self {
            DataView::Request(data) => data.lemma_sanitize_idempotent(),
            DataView::RemoteDependency(data) => data.lemma_sanitize_idempotent(),
            DataView::Message(data) => data.lemma_sanitize_idempotent(),
        }
    }
}

impl Data {
    /// Brings the payload within the backend's limits.
    pub fn sanitize(&mut self)
        ensures
            final(self)@ == old(self)@.sanitized(),
    {
        match self {
            Data::Request(data) => {
                data.sanitize();
            },
            Data::RemoteDependency(data) => {
                data.sanitize();
            },
            Data::Message(data) => {
                data.sanitize();
            },
        }
    }

    /// The envelope name that goes with the payload.
    pub fn schema_name(&self) -> (name: &'static str)
        ensures
            name@ == self@.schema_name(),
    {
        match self {
            Data::Request(_) => REQUEST_NAME,
            Data::RemoteDependency(_) => REMOTE_DEPENDENCY_NAME,
            Data::Message(_) => MESSAGE_NAME,
        }
    }
}

/// The transport unit: one payload with its name, time, routing key and tags.
pub struct Envelope {
    pub name: String,
    pub time: String,
    pub i_key: String,
    pub tags: TagMap,
    pub data: Data,
}

/// An envelope as contracts see it.
pub struct EnvelopeView {
    pub name: Seq<char>,
    pub time: Seq<char>,
    pub i_key: Seq<char>,
    pub tags: Map<ContextTagKey, Seq<char>>,
    pub data: DataView,
}

impl View for Envelope {
    type V = EnvelopeView;

    open spec fn view(&self) -> EnvelopeView {
        EnvelopeView {
            name: self.name@,
            time: self.time@,
            i_key: self.i_key@,
            tags: self.tags@,
            data: self.data@,
        }
    }
}

impl DeepView for Envelope {
    type V = EnvelopeView;

    open spec fn deep_view(&self) -> EnvelopeView {
        self@
    }
}

impl EnvelopeView {
    /// The envelope's name agrees with its payload.
    pub open spec fn well_formed(self) -> bool {
        self.name == self.data.schema_name()
    }

    /// The envelope within the backend's limits.
    pub open spec fn sanitized(self) -> EnvelopeView {
        EnvelopeView {
            name: truncated(self.name, MAX_ENVELOPE_NAME_LENGTH as nat),
            time: truncated(self.time, MAX_TIME_LENGTH as nat),
            i_key: truncated(self.i_key, MAX_INSTRUMENTATION_KEY_LENGTH as nat),
            tags: sanitized_tags(self.tags),
            data: self.data.sanitized(),
        }
    }

    /// Sanitizing an envelope a second time changes nothing.
    pub proof fn lemma_sanitize_idempotent(self)
        ensures
            self.sanitized().sanitized() == self.sanitized(),
    {
        self.data.lemma_sanitize_idempotent();
        lemma_sanitized_tags_idempotent(self.tags);
    }

    /// Sanitizing keeps an envelope's name in agreement with its payload.
    pub proof fn lemma_sanitize_keeps_agreement(self)
        requires
            self.well_formed(),
        ensures
            self.sanitized().well_formed(),
    {
        reveal_strlit("Microsoft.ApplicationInsights.Request");
        reveal_strlit("Microsoft.ApplicationInsights.RemoteDependency");
        reveal_strlit("Microsoft.ApplicationInsights.Message");
    }
}

impl Envelope {
    /// Brings the envelope, its tags and its payload within the backend's
    /// limits.
    pub fn sanitize(&mut self)
        ensures
            final(self)@ == old(self)@.sanitized(),
    {
        truncate_string(&mut self.name, MAX_ENVELOPE_NAME_LENGTH);
        truncate_string(&mut self.time, MAX_TIME_LENGTH);
        truncate_string(&mut self.i_key, MAX_INSTRUMENTATION_KEY_LENGTH);
        self.tags.sanitize();
        self.data.sanitize();
    }
}

} // verus!
