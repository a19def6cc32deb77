//! Context tags: what a record says of the operation, the user and the
//! process it comes from.

use crate::attributes::{value_of, AttributeMap, ENDUSER_ID};
use crate::convert::{span_id_text, span_id_to_string, trace_id_text, trace_id_to_string};
use crate::span::{Span, SpanView};
use crate::text::{truncate_optional, truncated};
use vstd::prelude::*;
use vstd::string::*;

verus! {

/// What this library calls itself in the tag for the SDK version.
pub const SDK_VERSION: &'static str = "rust:opentelemetry-application-insights:0.1.0";

/// The number of context tags.
pub const TAG_COUNT: usize = 7;

/// The context tags that a record can carry, in the order in which they are
/// listed.
#[derive(Clone, Copy, Debug, PartialEq, Eq, PartialOrd, Ord, Hash, Structural)]
pub enum ContextTagKey {
    ApplicationVersion,
    OperationId,
    OperationParentId,
    UserAuthUserId,
    CloudRole,
    CloudRoleInstance,
    InternalSdkVersion,
}

impl ContextTagKey {
    /// The tag at a place of the list.
    pub open spec fn at(i: int) -> ContextTagKey {
        if i == 0 {
            ContextTagKey::ApplicationVersion
        } else if i == 1 {
            ContextTagKey::OperationId
        } else if i == 2 {
            ContextTagKey::OperationParentId
        } else if i == 3 {
            ContextTagKey::UserAuthUserId
        } else if i == 4 {
            ContextTagKey::CloudRole
        } else if i == 5 {
            ContextTagKey::CloudRoleInstance
        } else {
            ContextTagKey::InternalSdkVersion
        }
    }

    /// The name of the tag on the wire.
    pub open spec fn spec_name(self) -> Seq<char> {
        match self {
            ContextTagKey::ApplicationVersion => "ai.application.ver"@,
            ContextTagKey::OperationId => "ai.operation.id"@,
            ContextTagKey::OperationParentId => "ai.operation.parentId"@,
            ContextTagKey::UserAuthUserId => "ai.user.authUserId"@,
            ContextTagKey::CloudRole => "ai.cloud.role"@,
            ContextTagKey::CloudRoleInstance => "ai.cloud.roleInstance"@,
            ContextTagKey::InternalSdkVersion => "ai.internal.sdkVersion"@,
        }
    }

    /// The longest value that the backend takes for the tag, in characters.
    pub open spec fn spec_max_len(self) -> usize {
        match self {
            ContextTagKey::ApplicationVersion => 1024,
            ContextTagKey::OperationId => 128,
            ContextTagKey::OperationParentId => 128,
            ContextTagKey::UserAuthUserId => 1024,
            ContextTagKey::CloudRole => 256,
            ContextTagKey::CloudRoleInstance => 256,
            ContextTagKey::InternalSdkVersion => 64,
        }
    }

    /// The name of the tag on the wire.
    pub fn name(self) -> (name: &'static str)
        ensures
            name@ == self.spec_name(),
    {
        match self {
            ContextTagKey::ApplicationVersion => "ai.application.ver",
            ContextTagKey::OperationId => "ai.operation.id",
            ContextTagKey::OperationParentId => "ai.operation.parentId",
            ContextTagKey::UserAuthUserId => "ai.user.authUserId",
            ContextTagKey::CloudRole => "ai.cloud.role",
            ContextTagKey::CloudRoleInstance => "ai.cloud.roleInstance",
            ContextTagKey::InternalSdkVersion => "ai.internal.sdkVersion",
        }
    }

    /// The longest value that the backend takes for the tag, in characters.
    pub fn max_len(self) -> (max: usize)
        ensures
            max == self.spec_max_len(),
    {
        match self {
            ContextTagKey::ApplicationVersion => 1024,
            ContextTagKey::OperationId => 128,
            ContextTagKey::OperationParentId => 128,
            ContextTagKey::UserAuthUserId => 1024,
            ContextTagKey::CloudRole => 256,
            ContextTagKey::CloudRoleInstance => 256,
            ContextTagKey::InternalSdkVersion => 64,
        }
    }
}

/// One tag with its value.
pub struct Tag {
    pub key: ContextTagKey,
    pub value: String,
}

impl View for Tag {
    type V = (ContextTagKey, Seq<char>);

    open spec fn view(&self) -> (ContextTagKey, Seq<char>) {
        (self.key, self.value@)
    }
}

impl DeepView for Tag {
    type V = (ContextTagKey, Seq<char>);

    open spec fn deep_view(&self) -> (ContextTagKey, Seq<char>) {
        self@
    }
}

/// The tags of a mapping among the first `n` of the list, in the list's order.
pub open spec fn entries_upto(m: Map<ContextTagKey, Seq<char>>, n: nat) -> Seq<
    (ContextTagKey, Seq<char>),
>
    decreases n,
{
    if n == 0 {
        Seq::empty()
    } else {
        let rest = entries_upto(m, (n - 1) as nat);
        let key = ContextTagKey::at(n - 1);
        if m.contains_key(key) {
            rest.push((key, m[key]))
        } else {
            rest
        }
    }
}

/// All tags of a mapping, in the list's order.
pub open spec fn tag_entries(m: Map<ContextTagKey, Seq<char>>) -> Seq<(ContextTagKey, Seq<char>)> {
    entries_upto(m, TAG_COUNT as nat)
}

/// A tag mapping with every value cut down to what the backend takes.
pub open spec fn sanitized_tags(m: Map<ContextTagKey, Seq<char>>) -> Map<
    ContextTagKey,
    Seq<char>,
> {
    Map::new(
        |key: ContextTagKey| m.contains_key(key),
        |key: ContextTagKey| truncated(m[key], key.spec_max_len() as nat),
    )
}

/// Sanitizing tags a second time changes nothing.
pub proof fn lemma_sanitized_tags_idempotent(m: Map<ContextTagKey, Seq<char>>)
    ensures
        sanitized_tags(sanitized_tags(m)) == sanitized_tags(m),
{
    assert(sanitized_tags(sanitized_tags(m)) =~= sanitized_tags(m));
}

/// The tags that every record of a process carries from the start: the
/// version of the SDK. The role name, the role instance and the application
/// version join them where the exporter is given them.
pub open spec fn common_tags() -> Map<ContextTagKey, Seq<char>> {
    Map::empty().insert(ContextTagKey::InternalSdkVersion, SDK_VERSION@)
}

/// The tags of a span's own record: the trace as the operation, the parent
/// span where there is one, and the authenticated user where the attributes
/// name one.
pub open spec fn span_tags(span: SpanView, attrs: Seq<(Seq<char>, Seq<char>)>) -> Map<
    ContextTagKey,
    Seq<char>,
> {
    let operation = Map::empty().insert(ContextTagKey::OperationId, trace_id_text(span.trace_id));
    let with_parent = match span.parent_span_id {
        Some(parent) => operation.insert(ContextTagKey::OperationParentId, span_id_text(parent)),
        None => operation,
    };
    match value_of(attrs, ENDUSER_ID@) {
        Some(user) => with_parent.insert(ContextTagKey::UserAuthUserId, user),
        None => with_parent,
    }
}

/// The tags of an event's record: the trace as the operation and the span as
/// the parent.
pub open spec fn event_tags(span: SpanView) -> Map<ContextTagKey, Seq<char>> {
    Map::empty().insert(ContextTagKey::OperationId, trace_id_text(span.trace_id)).insert(
        ContextTagKey::OperationParentId,
        span_id_text(span.span_id),
    )
}

/// A mapping from context tags to their values. A tag that was never set has
/// no entry.
pub struct TagMap {
    application_version: Option<String>,
    operation_id: Option<String>,
    operation_parent_id: Option<String>,
    user_auth_user_id: Option<String>,
    cloud_role: Option<String>,
    cloud_role_instance: Option<String>,
    internal_sdk_version: Option<String>,
}

impl View for TagMap {
    type V = Map<ContextTagKey, Seq<char>>;

    closed spec fn view(&self) -> Map<ContextTagKey, Seq<char>> {
        Map::new(
            |key: ContextTagKey| self.slot(key) is Some,
            |key: ContextTagKey| self.slot(key)->0@,
        )
    }
}

impl Clone for TagMap {
    fn clone(&self) -> (tags: TagMap)
        ensures
            tags@ == self@,
    {
        let tags = TagMap {
            application_version: self.application_version.clone(),
            operation_id: self.operation_id.clone(),
            operation_parent_id: self.operation_parent_id.clone(),
            user_auth_user_id: self.user_auth_user_id.clone(),
            cloud_role: self.cloud_role.clone(),
            cloud_role_instance: self.cloud_role_instance.clone(),
            internal_sdk_version: self.internal_sdk_version.clone(),
        };
        assert(tags@ =~= self@);
        tags
    }
}

impl TagMap {
    /// The place that holds the value of a tag.
    closed spec fn slot(&self, key: ContextTagKey) -> Option<String> {
        match key {
            ContextTagKey::ApplicationVersion => self.application_version,
            ContextTagKey::OperationId => self.operation_id,
            ContextTagKey::OperationParentId => self.operation_parent_id,
            ContextTagKey::UserAuthUserId => self.user_auth_user_id,
            ContextTagKey::CloudRole => self.cloud_role,
            ContextTagKey::CloudRoleInstance => self.cloud_role_instance,
            ContextTagKey::InternalSdkVersion => self.internal_sdk_version,
        }
    }

    /// The mapping without any tag.
    pub fn new() -> (tags: TagMap)
        ensures
            tags@ == Map::<ContextTagKey, Seq<char>>::empty(),
    {
        let tags = TagMap {
            application_version: None,
            operation_id: None,
            operation_parent_id: None,
            user_auth_user_id: None,
            cloud_role: None,
            cloud_role_instance: None,
            internal_sdk_version: None,
        };
        assert(tags@ =~= Map::<ContextTagKey, Seq<char>>::empty());
        tags
    }

    /// Sets a tag, over any value that it had.
    pub fn insert(&mut self, key: ContextTagKey, value: String)
        ensures
            final(self)@ == old(self)@.insert(key, value@),
    {
        let ghost text = value@;
        match key {
            ContextTagKey::ApplicationVersion => {
                self.application_version = Some(value);
            },
            ContextTagKey::OperationId => {
                self.operation_id = Some(value);
            },
            ContextTagKey::OperationParentId => {
                self.operation_parent_id = Some(value);
            },
            ContextTagKey::UserAuthUserId => {
                self.user_auth_user_id = Some(value);
            },
            ContextTagKey::CloudRole => {
                self.cloud_role = Some(value);
            },
            ContextTagKey::CloudRoleInstance => {
                self.cloud_role_instance = Some(value);
            },
            ContextTagKey::InternalSdkVersion => {
                self.internal_sdk_version = Some(value);
            },
        }
        assert(self@ =~= old(self)@.insert(key, text));
    }

    /// The value of a tag, if it is set.
    pub fn get(&self, key: ContextTagKey) -> (value: Option<&String>)
        ensures
            value.deep_view() == (if self@.contains_key(key) {
                Some(self@[key])
            } else {
                None
            }),
    {
        match key {
            ContextTagKey::ApplicationVersion => self.application_version.as_ref(),
            ContextTagKey::OperationId => self.operation_id.as_ref(),
            ContextTagKey::OperationParentId => self.operation_parent_id.as_ref(),
            ContextTagKey::UserAuthUserId => self.user_auth_user_id.as_ref(),
            ContextTagKey::CloudRole => self.cloud_role.as_ref(),
            ContextTagKey::CloudRoleInstance => self.cloud_role_instance.as_ref(),
            ContextTagKey::InternalSdkVersion => self.internal_sdk_version.as_ref(),
        }
    }

    /// Cuts every value down to what the backend takes for its tag.
    pub fn sanitize(&mut self)
        ensures
            final(self)@ == sanitized_tags(old(self)@),
    {
        truncate_optional(&mut self.application_version, ContextTagKey::ApplicationVersion.max_len());
        truncate_optional(&mut self.operation_id, ContextTagKey::OperationId.max_len());
        truncate_optional(&mut self.operation_parent_id, ContextTagKey::OperationParentId.max_len());
        truncate_optional(&mut self.user_auth_user_id, ContextTagKey::UserAuthUserId.max_len());
        truncate_optional(&mut self.cloud_role, ContextTagKey::CloudRole.max_len());
        truncate_optional(&mut self.cloud_role_instance, ContextTagKey::CloudRoleInstance.max_len());
        truncate_optional(
            &mut self.internal_sdk_version,
            ContextTagKey::InternalSdkVersion.max_len(),
        );
        assert(self@ =~= sanitized_tags(old(self)@));
    }

    /// The tags that are set, each with its value, in the list's order.
    pub fn entries(&self) -> (entries: Vec<Tag>)
        ensures
            entries.deep_view() == tag_entries(self@),
    {
        let mut entries: Vec<Tag> = Vec::new();
        let mut i: usize = 0;
        while i < TAG_COUNT
            invariant
                i <= TAG_COUNT,
                entries.deep_view() == entries_upto(self@, i as nat),
            decreases TAG_COUNT - i,
        {
            let key = TagMap::key_at(i);
            let ghost before = entries.deep_view();
            match self.get(key) {
                Some(value) => {
                    entries.push(Tag { key: key, value: value.clone() });
                    assert(entries.deep_view() =~= before.push((key, self@[key])));
                },
                None => {},
            }
            i += 1;
        }
        entries
    }

    /// The tag at a place of the list.
    fn key_at(i: usize) -> (key: ContextTagKey)
        requires
            i < TAG_COUNT,
        ensures
            key == ContextTagKey::at(i as int),
    {
        if i == 0 {
            ContextTagKey::ApplicationVersion
        } else if i == 1 {
            ContextTagKey::OperationId
        } else if i == 2 {
            ContextTagKey::OperationParentId
        } else if i == 3 {
            ContextTagKey::UserAuthUserId
        } else if i == 4 {
            ContextTagKey::CloudRole
        } else if i == 5 {
            ContextTagKey::CloudRoleInstance
        } else {
            ContextTagKey::InternalSdkVersion
        }
    }
}

/// The tags that every record of a process carries from the start.
pub fn get_common_tags() -> (tags: TagMap)
    ensures
        tags@ == common_tags(),
{
    let mut tags = TagMap::new();
    tags.insert(ContextTagKey::InternalSdkVersion, String::from_str(SDK_VERSION));
    tags
}

/// The tags of a span's own record, from the span and its collected
/// attributes.
pub fn get_tags_for_span(span: &Span, attrs: &AttributeMap) -> (tags: TagMap)
    ensures
        tags@ == span_tags(span@, attrs@),
{
    let mut tags = TagMap::new();
    tags.insert(ContextTagKey::OperationId, trace_id_to_string(span.trace_id));
    match span.parent_span_id {
        Some(parent) => {
            tags.insert(ContextTagKey::OperationParentId, span_id_to_string(parent));
        },
        None => {},
    }
    match attrs.get(ENDUSER_ID) {
        Some(user) => {
            tags.insert(ContextTagKey::UserAuthUserId, user.clone());
        },
        None => {},
    }
    tags
}

/// The tags of the record of one of a span's events.
pub fn get_tags_for_event(span: &Span) -> (tags: TagMap)
    ensures
        tags@ == event_tags(span@),
{
    let mut tags = TagMap::new();
    tags.insert(ContextTagKey::OperationId, trace_id_to_string(span.trace_id));
    tags.insert(ContextTagKey::OperationParentId, span_id_to_string(span.span_id));
    tags
}

/// Lays a record's tags over the common ones: where both set a tag, the
/// record's value stays.
pub fn merge_tags(common: TagMap, record: TagMap) -> (tags: TagMap)
    ensures
        tags@ == common@.union_prefer_right(record@),
{
    let tags = TagMap {
        application_version: if record.application_version.is_some() {
            record.application_version
        } else {
            common.application_version
        },
        operation_id: if record.operation_id.is_some() {
            record.operation_id
        } else {
            common.operation_id
        },
        operation_parent_id: if record.operation_parent_id.is_some() {
            record.operation_parent_id
        } else {
            common.operation_parent_id
        },
        user_auth_user_id: if record.user_auth_user_id.is_some() {
            record.user_auth_user_id
        } else {
            common.user_auth_user_id
        },
        cloud_role: if record.cloud_role.is_some() {
            record.cloud_role
        } else {
            common.cloud_role
        },
        cloud_role_instance: if record.cloud_role_instance.is_some() {
            record.cloud_role_instance
        } else {
            common.cloud_role_instance
        },
        internal_sdk_version: if record.internal_sdk_version.is_some() {
            record.internal_sdk_version
        } else {
            common.internal_sdk_version
        },
    };
    assert(tags@ =~= common@.union_prefer_right(record@));
    tags
}

} // verus!
