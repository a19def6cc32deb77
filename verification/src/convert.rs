//! Identifiers, durations and attribute mappings as the backend writes them.

use crate::attributes::{
    AttributeMap, KeyValue, DB_NAME, DB_STATEMENT, DB_SYSTEM, ENDUSER_ID, HTTP_HOST, HTTP_METHOD,
    HTTP_ROUTE, HTTP_STATUS_CODE, HTTP_TARGET, HTTP_URL, MESSAGING_SYSTEM, NET_PEER_NAME,
};
use crate::attributes::unique_keys;
use crate::text::{digits, lemma_digits_len, power, push_number, same_text};
use crate::time::{Timestamp, NANOS_PER_MICRO};
use vstd::prelude::*;
use vstd::string::*;

verus! {

pub const MICROS_PER_SECOND: u128 = 1_000_000;

pub const MICROS_PER_MINUTE: u128 = 60_000_000;

pub const MICROS_PER_HOUR: u128 = 3_600_000_000;

pub const MICROS_PER_DAY: u128 = 86_400_000_000;

/// A span identifier in text: sixteen hexadecimal digits.
pub open spec fn span_id_text(span_id: u64) -> Seq<char> {
    digits(span_id as nat, 16, 16)
}

/// A trace identifier in text: thirty-two hexadecimal digits.
pub open spec fn trace_id_text(trace_id: u128) -> Seq<char> {
    digits(trace_id as nat, 16, 32)
}

/// Identifiers have a fixed width: sixteen digits for a span, thirty-two for
/// a trace.
pub proof fn lemma_id_text_len(span_id: u64, trace_id: u128)
    ensures
        span_id_text(span_id).len() == 16,
        trace_id_text(trace_id).len() == 32,
{
    assert(power(16, 16) == 0x1_0000_0000_0000_0000) by {
        reveal_with_fuel(power, 17);
        assert(power(16, 16) == 16 * (16 * (16 * (16 * (16 * (16 * (16 * (16 * (16 * (16 * (16 * (16
            * (16 * (16 * (16 * (16 * 1))))))))))))))));
    }
    assert(power(16, 32) == power(16, 16) * power(16, 16)) by {
        lemma_power_adds(16, 16, 16);
    }
    assert(0x1_0000_0000_0000_0000 * 0x1_0000_0000_0000_0000
        == 0x1_0000_0000_0000_0000_0000_0000_0000_0000int);
    lemma_digits_len(span_id as nat, 16, 16);
    lemma_digits_len(trace_id as nat, 16, 32);
}

/// Powers of one base multiply by adding their exponents.
pub proof fn lemma_power_adds(base: nat, a: nat, b: nat)
    ensures
        power(base, a + b) == power(base, a) * power(base, b),
    decreases a,
{
    if a == 0 {
        assert(power(base, 0) == 1);
        assert(1 * power(base, b) == power(base, b)) by (nonlinear_arith);
    } else {
        lemma_power_adds(base, (a - 1) as nat, b);
        let x = power(base, (a - 1) as nat);
        let y = power(base, b);
        assert(power(base, a + b) == base * power(base, (a + b - 1) as nat));
        assert(base * (x * y) == (base * x) * y) by (nonlinear_arith);
    }
}

/// The whole microseconds from `start` to `end`, and none where `end` comes
/// first.
pub open spec fn elapsed_micros(start: Timestamp, end: Timestamp) -> nat {
    if end.nanos >= start.nanos {
        ((end.nanos - start.nanos) / NANOS_PER_MICRO as int) as nat
    } else {
        0
    }
}

/// A duration in text: days, a dot, hours, minutes and seconds of two digits
/// each with colons between, a dot, and six digits of microseconds.
pub open spec fn duration_text(micros: nat) -> Seq<char> {
    digits(micros / MICROS_PER_DAY as nat, 10, 1) + "."@ + digits(
        micros / MICROS_PER_HOUR as nat % 24,
        10,
        2,
    ) + ":"@ + digits(micros / MICROS_PER_MINUTE as nat % 60, 10, 2) + ":"@ + digits(
        micros / MICROS_PER_SECOND as nat % 60,
        10,
        2,
    ) + "."@ + digits(micros % MICROS_PER_SECOND as nat, 10, 6)
}

/// Writes a span identifier.
pub fn span_id_to_string(span_id: u64) -> (text: String)
    ensures
        text@ == span_id_text(span_id),
{
    let mut text = String::new();
    push_number(&mut text, span_id as u128, 16, 16);
    assert(text@ =~= span_id_text(span_id));
    text
}

/// Writes a trace identifier.
pub fn trace_id_to_string(trace_id: u128) -> (text: String)
    ensures
        text@ == trace_id_text(trace_id),
{
    let mut text = String::new();
    push_number(&mut text, trace_id, 16, 32);
    assert(text@ =~= trace_id_text(trace_id));
    text
}

/// The time a span took, in whole microseconds, floored at zero.
pub fn span_duration(start: Timestamp, end: Timestamp) -> (micros: u128)
    ensures
        micros == elapsed_micros(start, end),
{
    if end.nanos >= start.nanos {
        (end.nanos - start.nanos) / NANOS_PER_MICRO
    } else {
        0
    }
}

/// Writes a duration of so many microseconds.
pub fn duration_to_string(micros: u128) -> (text: String)
    ensures
        text@ == duration_text(micros as nat),
{
    let mut text = String::new();
    push_number(&mut text, micros / MICROS_PER_DAY, 10, 1);
    text.append(".");
    push_number(&mut text, micros / MICROS_PER_HOUR % 24, 10, 2);
    text.append(":");
    push_number(&mut text, micros / MICROS_PER_MINUTE % 60, 10, 2);
    text.append(":");
    push_number(&mut text, micros / MICROS_PER_SECOND % 60, 10, 2);
    text.append(".");
    push_number(&mut text, micros % MICROS_PER_SECOND, 10, 6);
    assert(text@ =~= duration_text(micros as nat));
    text
}

/// The attributes that a record has taken into fields of its own, so that
/// they are not repeated among its custom properties. A flag may be set for
/// an attribute that the span does not have.
#[derive(Clone, Copy, Debug)]
pub struct Consumed {
    pub enduser_id: bool,
    pub http_method: bool,
    pub http_route: bool,
    pub http_status_code: bool,
    pub http_url: bool,
    pub http_target: bool,
    pub http_host: bool,
    pub net_peer_name: bool,
    pub db_statement: bool,
    pub db_name: bool,
    pub db_system: bool,
    pub messaging_system: bool,
}

impl Consumed {
    /// No attribute taken.
    pub open spec fn spec_nothing() -> Consumed {
        Consumed {
            enduser_id: false,
            http_method: false,
            http_route: false,
            http_status_code: false,
            http_url: false,
            http_target: false,
            http_host: false,
            net_peer_name: false,
            db_statement: false,
            db_name: false,
            db_system: false,
            messaging_system: false,
        }
    }

    /// No attribute taken.
    pub fn nothing() -> (consumed: Consumed)
        ensures
            consumed == Consumed::spec_nothing(),
    {
        Consumed {
            enduser_id: false,
            http_method: false,
            http_route: false,
            http_status_code: false,
            http_url: false,
            http_target: false,
            http_host: false,
            net_peer_name: false,
            db_statement: false,
            db_name: false,
            db_system: false,
            messaging_system: false,
        }
    }

    /// Whether the attribute with this key has been taken.
    pub open spec fn takes(self, key: Seq<char>) -> bool {
        ||| self.enduser_id && key == ENDUSER_ID@
        ||| self.http_method && key == HTTP_METHOD@
        ||| self.http_route && key == HTTP_ROUTE@
        ||| self.http_status_code && key == HTTP_STATUS_CODE@
        ||| self.http_url && key == HTTP_URL@
        ||| self.http_target && key == HTTP_TARGET@
        ||| self.http_host && key == HTTP_HOST@
        ||| self.net_peer_name && key == NET_PEER_NAME@
        ||| self.db_statement && key == DB_STATEMENT@
        ||| self.db_name && key == DB_NAME@
        ||| self.db_system && key == DB_SYSTEM@
        ||| self.messaging_system && key == MESSAGING_SYSTEM@
    }

    /// Whether the attribute with this key has been taken.
    pub fn takes_key(&self, key: &str) -> (taken: bool)
        ensures
            taken == self.takes(key@),
    {
        (self.enduser_id && same_text(key, ENDUSER_ID)) || (self.http_method && same_text(
            key,
            HTTP_METHOD,
        )) || (self.http_route && same_text(key, HTTP_ROUTE)) || (self.http_status_code
            && same_text(key, HTTP_STATUS_CODE)) || (self.http_url && same_text(key, HTTP_URL)) || (
        self.http_target && same_text(key, HTTP_TARGET)) || (self.http_host && same_text(
            key,
            HTTP_HOST,
        )) || (self.net_peer_name && same_text(key, NET_PEER_NAME)) || (self.db_statement
            && same_text(key, DB_STATEMENT)) || (self.db_name && same_text(key, DB_NAME)) || (
        self.db_system && same_text(key, DB_SYSTEM)) || (self.messaging_system && same_text(
            key,
            MESSAGING_SYSTEM,
        ))
    }
}

/// The attributes that are left once a record has taken its own, in their
/// order.
pub open spec fn remaining(attrs: Seq<(Seq<char>, Seq<char>)>, consumed: Consumed) -> Seq<
    (Seq<char>, Seq<char>),
>
    decreases attrs.len(),
{
    if attrs.len() == 0 {
        Seq::empty()
    } else {
        let rest = remaining(attrs.drop_last(), consumed);
        if consumed.takes(attrs.last().0) {
            rest
        } else {
            rest.push(attrs.last())
        }
    }
}

/// The custom properties of a record: the attributes that are left, and
/// none at all where nothing is left.
pub open spec fn properties_of(attrs: Seq<(Seq<char>, Seq<char>)>, consumed: Consumed) -> Option<
    Seq<(Seq<char>, Seq<char>)>,
> {
    let kept = remaining(attrs, consumed);
    if kept.len() == 0 {
        None
    } else {
        Some(kept)
    }
}

/// Where nothing is taken, everything is left.
pub proof fn lemma_remaining_all(attrs: Seq<(Seq<char>, Seq<char>)>)
    ensures
        remaining(attrs, Consumed::spec_nothing()) == attrs,
    decreases attrs.len(),
{
    if attrs.len() > 0 {
        lemma_remaining_all(attrs.drop_last());
        assert(attrs.drop_last().push(attrs.last()) =~= attrs);
    }
}

/// Every attribute is either left among the properties, with its value, or
/// has been taken; and nothing is left that was not an attribute. The order
/// of what is left is that of the attributes, and no key occurs twice where
/// none did.
pub proof fn lemma_remaining_entries(attrs: Seq<(Seq<char>, Seq<char>)>, consumed: Consumed)
    ensures
        forall|i: int|
            0 <= i < attrs.len() ==> consumed.takes((#[trigger] attrs[i]).0) || remaining(
                attrs,
                consumed,
            ).contains(attrs[i]),
        forall|j: int|
            0 <= j < remaining(attrs, consumed).len() ==> attrs.contains(
                #[trigger] remaining(attrs, consumed)[j],
            ) && !consumed.takes(remaining(attrs, consumed)[j].0),
        remaining(attrs, consumed).len() <= attrs.len(),
    decreases attrs.len(),
{
    let kept = remaining(attrs, consumed);
    if attrs.len() > 0 {
        let front = attrs.drop_last();
        let rest = remaining(front, consumed);
        lemma_remaining_entries(front, consumed);
        assert forall|i: int| 0 <= i < attrs.len() implies consumed.takes((#[trigger] attrs[i]).0)
            || kept.contains(attrs[i]) by {
            if i < front.len() {
                assert(front[i] == attrs[i]);
                if !consumed.takes(attrs[i].0) {
                    let j = choose|j: int| 0 <= j < rest.len() && rest[j] == front[i];
                    assert(kept[j] == attrs[i]);
                }
            } else if !consumed.takes(attrs[i].0) {
                assert(kept[kept.len() - 1] == attrs[i]);
            }
        }
        assert forall|j: int| 0 <= j < kept.len() implies attrs.contains(#[trigger] kept[j])
            && !consumed.takes(kept[j].0) by {
            if j < rest.len() {
                assert(kept[j] == rest[j]);
                let i = choose|i: int| 0 <= i < front.len() && front[i] == rest[j];
                assert(attrs[i] == kept[j]);
            } else {
                assert(attrs[attrs.len() - 1] == kept[j]);
            }
        }
    }
}

/// What is left of a mapping is a mapping: no key occurs twice.
pub proof fn lemma_remaining_unique(attrs: Seq<(Seq<char>, Seq<char>)>, consumed: Consumed)
    requires
        unique_keys(attrs),
    ensures
        unique_keys(remaining(attrs, consumed)),
    decreases attrs.len(),
{
    if attrs.len() > 0 {
        let front = attrs.drop_last();
        let rest = remaining(front, consumed);
        assert(unique_keys(front)) by {
            assert forall|i: int, j: int| 0 <= i < j < front.len() implies front[i].0
                != front[j].0 by {
                assert(front[i] == attrs[i] && front[j] == attrs[j]);
            }
        }
        lemma_remaining_unique(front, consumed);
        lemma_remaining_entries(front, consumed);
        let kept = remaining(attrs, consumed);
        assert forall|i: int, j: int| 0 <= i < j < kept.len() implies kept[i].0 != kept[j].0 by {
            if j < rest.len() {
                assert(kept[i] == rest[i] && kept[j] == rest[j]);
            } else {
                assert(kept[i] == rest[i]);
                let at = choose|at: int| 0 <= at < front.len() && front[at] == rest[i];
                assert(attrs[at] == rest[i]);
                assert(kept[j] == attrs[attrs.len() - 1]);
            }
        }
    }
}

/// The custom properties of a record: a copy of each attribute that the
/// record has not taken.
pub fn attrs_to_properties(attrs: &AttributeMap, consumed: Consumed) -> (properties: Option<
    Vec<KeyValue>,
>)
    ensures
        properties.deep_view() == properties_of(attrs@, consumed),
{
    let ghost a = attrs@;
    let n = attrs.len();
    let mut kept: Vec<KeyValue> = Vec::new();
    let mut i: usize = 0;
    assert(kept.deep_view() =~= remaining(a.take(0), consumed));
    while i < n
        invariant
            i <= n,
            n == a.len(),
            a == attrs@,
            kept.deep_view() == remaining(a.take(i as int), consumed),
        decreases n - i,
    {
        assert(a.take(i + 1).drop_last() =~= a.take(i as int));
        let entry = attrs.entry(i);
        let ghost before = kept.deep_view();
        if !consumed.takes_key(entry.key.as_str()) {
            kept.push(entry.duplicate());
            assert(kept.deep_view() =~= before.push(a[i as int]));
        }
        i += 1;
    }
    assert(a.take(n as int) =~= a);
    if kept.len() == 0 {
        None
    } else {
        Some(kept)
    }
}

} // verus!
