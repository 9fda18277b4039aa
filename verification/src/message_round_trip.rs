//! Reading back a message that was written: the proof that decoding
//! gives every message back, with each section and the kind of its body
//! as they were.

use vstd::prelude::*;
use crate::message::{BodyModel, Header, MessageModel, PropertiesModel};
use crate::message_wire::{
    body_fits, header_entries, header_from, header_of, header_section, lemma_parts_fit, marker,
    message_fits, parse_body, parse_message, parse_part, parse_parts, parse_section, part_fits,
    properties_entries, properties_from, properties_of, properties_section, section_fits,
    whole_message, wire_body, wire_message, wire_part, wire_parts, wire_section, wire_sections,
    APPLICATION_PROPERTIES_CODE, DATA_CODE, DELIVERY_ANNOTATIONS_CODE, FOOTER_CODE, HEADER_CODE,
    MESSAGE_ANNOTATIONS_CODE, MULTIPLE_CODE, PROPERTIES_CODE, SEQUENCE_CODE, VALUE_CODE,
};
use crate::round_trip::{lemma_entries_keys_unique, lemma_round_trip};
use crate::types::{
    has_key, keys_distinct, lemma_position_of, lemma_position_of_bounds,
    lemma_with_entry_distinct, lookup, position_of, with_entry, ValueModel,
};
use crate::wire::{keys_unique, lemma_wire_value_nonempty, wire_value};

verus! {

/// The value under a key after a key was given a value: the new value
/// under that key, the old one under any other.
pub proof fn lemma_lookup_with_entry(
    entries: Seq<(Seq<char>, ValueModel)>,
    key: Seq<char>,
    value: ValueModel,
    other: Seq<char>,
)
    ensures
        lookup(with_entry(entries, key, value), other) == (if other == key {
            Some(value)
        } else {
            lookup(entries, other)
        }),
        has_key(with_entry(entries, key, value), other) <==> other == key || has_key(
            entries,
            other,
        ),
{
    let after = with_entry(entries, key, value);
    let at = position_of(entries, key);
    lemma_position_of_bounds(entries, key);
    lemma_position_of_bounds(entries, other);
    let found = position_of(entries, other);
    if other == key {
        assert forall|j: int| 0 <= j < at implies (#[trigger] after[j]).0 != key by {
            assert(after[j].0 == entries[j].0);
        }
        lemma_position_of(after, key, at);
    } else {
        assert forall|j: int| 0 <= j < found implies (#[trigger] after[j]).0 != other by {
            assert(after[j].0 == entries[j].0);
        }
        if found < entries.len() {
            assert(after[found] == entries[found]);
            lemma_position_of(after, other, found);
        } else {
            assert forall|j: int| 0 <= j < after.len() implies (#[trigger] after[j]).0 != other by {
                if j < entries.len() {
                    assert(after[j].0 == entries[j].0);
                }
            }
            lemma_position_of(after, other, after.len() as int);
        }
    }
    lemma_position_of_bounds(after, other);
}

/// The entries that some fields stand for: one entry for each field that
/// is set, under the field's name, in the order of the fields.
pub open spec fn fields_entries(fields: Seq<(Seq<char>, Option<ValueModel>)>) -> Seq<
    (Seq<char>, ValueModel),
>
    decreases fields.len(),
{
    if fields.len() == 0 {
        Seq::empty()
    } else {
        let before = fields_entries(fields.drop_last());
        match fields.last().1 {
            Some(value) => with_entry(before, fields.last().0, value),
            None => before,
        }
    }
}

/// No two of the fields have the same name.
pub open spec fn names_distinct(fields: Seq<(Seq<char>, Option<ValueModel>)>) -> bool {
    forall|a: int, b: int|
        0 <= a < b < fields.len() ==> (#[trigger] fields[a]).0 != (#[trigger] fields[b]).0
}

/// The entries of fields have no key twice, and each entry is a field
/// that is set.
pub proof fn lemma_fields_entries(fields: Seq<(Seq<char>, Option<ValueModel>)>)
    ensures
        keys_distinct(fields_entries(fields)),
        forall|key: Seq<char>| #[trigger]
            has_key(fields_entries(fields), key) ==> exists|j: int|
                0 <= j < fields.len() && (#[trigger] fields[j]).0 == key && fields[j].1 is Some,
        forall|t: int|
            0 <= t < fields_entries(fields).len() ==> exists|j: int|
                0 <= j < fields.len() && (#[trigger] fields[j]).1 == Some(
                    (#[trigger] fields_entries(fields)[t]).1,
                ),
    decreases fields.len(),
{
    let entries = fields_entries(fields);
    if fields.len() > 0 {
        let front = fields.drop_last();
        let before = fields_entries(front);
        lemma_fields_entries(front);
        match fields.last().1 {
            Some(value) => {
                let key = fields.last().0;
                lemma_with_entry_distinct(before, key, value);
                lemma_position_of_bounds(before, key);
                assert forall|other: Seq<char>| #[trigger] has_key(entries, other) implies exists|
                    j: int,
                |
                    0 <= j < fields.len() && (#[trigger] fields[j]).0 == other
                        && fields[j].1 is Some by {
                    lemma_lookup_with_entry(before, key, value, other);
                    if other == key {
                        assert(fields[fields.len() - 1].0 == key);
                    } else {
                        assert(has_key(before, other));
                        let j = choose|j: int|
                            0 <= j < front.len() && (#[trigger] front[j]).0 == other
                                && front[j].1 is Some;
                        assert(fields[j] == front[j]);
                    }
                }
                assert forall|t: int| 0 <= t < entries.len() implies exists|j: int|
                    0 <= j < fields.len() && (#[trigger] fields[j]).1 == Some(
                        (#[trigger] entries[t]).1,
                    ) by {
                    if t == position_of(before, key) {
                        assert(fields[fields.len() - 1].1 == Some(entries[t].1));
                    } else {
                        assert(entries[t] == before[t]);
                        let j = choose|j: int|
                            0 <= j < front.len() && (#[trigger] front[j]).1 == Some(
                                (#[trigger] before[t]).1,
                            );
                        assert(fields[j] == front[j]);
                    }
                }
            },
            None => {
                assert forall|other: Seq<char>| #[trigger] has_key(entries, other) implies exists|
                    j: int,
                |
                    0 <= j < fields.len() && (#[trigger] fields[j]).0 == other
                        && fields[j].1 is Some by {
                    let j = choose|j: int|
                        0 <= j < front.len() && (#[trigger] front[j]).0 == other
                            && front[j].1 is Some;
                    assert(fields[j] == front[j]);
                }
                assert forall|t: int| 0 <= t < entries.len() implies exists|j: int|
                    0 <= j < fields.len() && (#[trigger] fields[j]).1 == Some(
                        (#[trigger] entries[t]).1,
                    ) by {
                    let j = choose|j: int|
                        0 <= j < front.len() && (#[trigger] front[j]).1 == Some(
                            (#[trigger] before[t]).1,
                        );
                    assert(fields[j] == front[j]);
                }
            },
        }
    }
}

/// Looking a field's name up in the entries of fields with distinct names
/// gives the field back.
pub proof fn lemma_fields_lookup(fields: Seq<(Seq<char>, Option<ValueModel>)>, i: int)
    requires
        names_distinct(fields),
        0 <= i < fields.len(),
    ensures
        lookup(fields_entries(fields), fields[i].0) == fields[i].1,
    decreases fields.len(),
{
    let front = fields.drop_last();
    let before = fields_entries(front);
    let last = fields.last();
    let key = fields[i].0;
    assert forall|a: int, b: int| 0 <= a < b < front.len() implies (#[trigger] front[a]).0 != (
    #[trigger] front[b]).0 by {
        assert(front[a] == fields[a]);
        assert(front[b] == fields[b]);
    }
    if i < fields.len() - 1 {
        lemma_fields_lookup(front, i);
        assert(front[i] == fields[i]);
        assert(fields[fields.len() - 1].0 != fields[i].0);
        match last.1 {
            Some(value) => {
                lemma_lookup_with_entry(before, last.0, value, key);
            },
            None => {},
        }
    } else {
        match last.1 {
            Some(value) => {
                lemma_lookup_with_entry(before, last.0, value, key);
            },
            None => {
                lemma_fields_entries(front);
                lemma_position_of_bounds(before, key);
                if has_key(before, key) {
                    let j = choose|j: int|
                        0 <= j < front.len() && (#[trigger] front[j]).0 == key
                            && front[j].1 is Some;
                    assert(front[j] == fields[j]);
                    assert(fields[j].0 != fields[i].0);
                }
            },
        }
    }
}

/// A field of a given type as an optional value.
pub open spec fn optional<T>(field: Option<T>, wrap: spec_fn(T) -> ValueModel) -> Option<
    ValueModel,
> {
    match field {
        Some(x) => Some(wrap(x)),
        None => None,
    }
}

/// The fields of a header with their names, in order.
pub open spec fn header_fields(header: Header) -> Seq<(Seq<char>, Option<ValueModel>)> {
    seq![
        ("durable"@, optional(header.durable, |x| ValueModel::Boolean(x))),
        ("priority"@, optional(header.priority, |x| ValueModel::Ubyte(x))),
        ("ttl"@, optional(header.ttl, |x| ValueModel::Uint(x))),
        ("first_acquirer"@, optional(header.first_acquirer, |x| ValueModel::Boolean(x))),
        ("delivery_count"@, optional(header.delivery_count, |x| ValueModel::Uint(x))),
    ]
}

/// The fields of properties with their names, in order.
pub open spec fn properties_fields(properties: PropertiesModel) -> Seq<
    (Seq<char>, Option<ValueModel>),
> {
    seq![
        ("message_id"@, properties.message_id),
        ("user_id"@, optional(properties.user_id, |x| ValueModel::Binary(x))),
        ("to"@, optional(properties.to, |x| ValueModel::String(x))),
        ("subject"@, optional(properties.subject, |x| ValueModel::String(x))),
        ("reply_to"@, optional(properties.reply_to, |x| ValueModel::String(x))),
        ("correlation_id"@, properties.correlation_id),
        ("content_type"@, optional(properties.content_type, |x| ValueModel::Symbol(x))),
        ("content_encoding"@, optional(properties.content_encoding, |x| ValueModel::Symbol(x))),
        ("absolute_expiry_time"@, optional(properties.absolute_expiry_time, |x| ValueModel::Timestamp(x))),
        ("creation_time"@, optional(properties.creation_time, |x| ValueModel::Timestamp(x))),
        ("group_id"@, optional(properties.group_id, |x| ValueModel::String(x))),
        ("group_sequence"@, optional(properties.group_sequence, |x| ValueModel::Uint(x))),
        ("reply_to_group_id"@, optional(properties.reply_to_group_id, |x| ValueModel::String(x))),
    ]
}

/// The entries of a header are the entries of its fields.
pub proof fn lemma_header_entries_are_fields(header: Header)
    ensures
        header_entries(header) == fields_entries(header_fields(header)),
{
    let all = header_fields(header);
    let f0 = all.subrange(0, 0);
    assert(fields_entries(f0) =~= Seq::<(Seq<char>, ValueModel)>::empty());
    let f1 = all.subrange(0, 1);
    assert(f1.drop_last() =~= f0);
    assert(f1.last() == all[0]);
    assert(fields_entries(f1) == (match all[0].1 {
        Some(value) => with_entry(fields_entries(f0), all[0].0, value),
        None => fields_entries(f0),
    }));
    let f2 = all.subrange(0, 2);
    assert(f2.drop_last() =~= f1);
    assert(f2.last() == all[1]);
    assert(fields_entries(f2) == (match all[1].1 {
        Some(value) => with_entry(fields_entries(f1), all[1].0, value),
        None => fields_entries(f1),
    }));
    let f3 = all.subrange(0, 3);
    assert(f3.drop_last() =~= f2);
    assert(f3.last() == all[2]);
    assert(fields_entries(f3) == (match all[2].1 {
        Some(value) => with_entry(fields_entries(f2), all[2].0, value),
        None => fields_entries(f2),
    }));
    let f4 = all.subrange(0, 4);
    assert(f4.drop_last() =~= f3);
    assert(f4.last() == all[3]);
    assert(fields_entries(f4) == (match all[3].1 {
        Some(value) => with_entry(fields_entries(f3), all[3].0, value),
        None => fields_entries(f3),
    }));
    let f5 = all.subrange(0, 5);
    assert(f5.drop_last() =~= f4);
    assert(f5.last() == all[4]);
    assert(fields_entries(f5) == (match all[4].1 {
        Some(value) => with_entry(fields_entries(f4), all[4].0, value),
        None => fields_entries(f4),
    }));
    assert(f5 =~= all);
}

/// The entries of properties are the entries of their fields.
pub proof fn lemma_properties_entries_are_fields(properties: PropertiesModel)
    ensures
        properties_entries(properties) == fields_entries(properties_fields(properties)),
{
    let all = properties_fields(properties);
    let f0 = all.subrange(0, 0);
    assert(fields_entries(f0) =~= Seq::<(Seq<char>, ValueModel)>::empty());
    let f1 = all.subrange(0, 1);
    assert(f1.drop_last() =~= f0);
    assert(f1.last() == all[0]);
    assert(fields_entries(f1) == (match all[0].1 {
        Some(value) => with_entry(fields_entries(f0), all[0].0, value),
        None => fields_entries(f0),
    }));
    let f2 = all.subrange(0, 2);
    assert(f2.drop_last() =~= f1);
    assert(f2.last() == all[1]);
    assert(fields_entries(f2) == (match all[1].1 {
        Some(value) => with_entry(fields_entries(f1), all[1].0, value),
        None => fields_entries(f1),
    }));
    let f3 = all.subrange(0, 3);
    assert(f3.drop_last() =~= f2);
    assert(f3.last() == all[2]);
    assert(fields_entries(f3) == (match all[2].1 {
        Some(value) => with_entry(fields_entries(f2), all[2].0, value),
        None => fields_entries(f2),
    }));
    let f4 = all.subrange(0, 4);
    assert(f4.drop_last() =~= f3);
    assert(f4.last() == all[3]);
    assert(fields_entries(f4) == (match all[3].1 {
        Some(value) => with_entry(fields_entries(f3), all[3].0, value),
        None => fields_entries(f3),
    }));
    let f5 = all.subrange(0, 5);
    assert(f5.drop_last() =~= f4);
    assert(f5.last() == all[4]);
    assert(fields_entries(f5) == (match all[4].1 {
        Some(value) => with_entry(fields_entries(f4), all[4].0, value),
        None => fields_entries(f4),
    }));
    let f6 = all.subrange(0, 6);
    assert(f6.drop_last() =~= f5);
    assert(f6.last() == all[5]);
    assert(fields_entries(f6) == (match all[5].1 {
        Some(value) => with_entry(fields_entries(f5), all[5].0, value),
        None => fields_entries(f5),
    }));
    let f7 = all.subrange(0, 7);
    assert(f7.drop_last() =~= f6);
    assert(f7.last() == all[6]);
    assert(fields_entries(f7) == (match all[6].1 {
        Some(value) => with_entry(fields_entries(f6), all[6].0, value),
        None => fields_entries(f6),
    }));
    let f8 = all.subrange(0, 8);
    assert(f8.drop_last() =~= f7);
    assert(f8.last() == all[7]);
    assert(fields_entries(f8) == (match all[7].1 {
        Some(value) => with_entry(fields_entries(f7), all[7].0, value),
        None => fields_entries(f7),
    }));
    let f9 = all.subrange(0, 9);
    assert(f9.drop_last() =~= f8);
    assert(f9.last() == all[8]);
    assert(fields_entries(f9) == (match all[8].1 {
        Some(value) => with_entry(fields_entries(f8), all[8].0, value),
        None => fields_entries(f8),
    }));
    let f10 = all.subrange(0, 10);
    assert(f10.drop_last() =~= f9);
    assert(f10.last() == all[9]);
    assert(fields_entries(f10) == (match all[9].1 {
        Some(value) => with_entry(fields_entries(f9), all[9].0, value),
        None => fields_entries(f9),
    }));
    let f11 = all.subrange(0, 11);
    assert(f11.drop_last() =~= f10);
    assert(f11.last() == all[10]);
    assert(fields_entries(f11) == (match all[10].1 {
        Some(value) => with_entry(fields_entries(f10), all[10].0, value),
        None => fields_entries(f10),
    }));
    let f12 = all.subrange(0, 12);
    assert(f12.drop_last() =~= f11);
    assert(f12.last() == all[11]);
    assert(fields_entries(f12) == (match all[11].1 {
        Some(value) => with_entry(fields_entries(f11), all[11].0, value),
        None => fields_entries(f11),
    }));
    let f13 = all.subrange(0, 13);
    assert(f13.drop_last() =~= f12);
    assert(f13.last() == all[12]);
    assert(fields_entries(f13) == (match all[12].1 {
        Some(value) => with_entry(fields_entries(f12), all[12].0, value),
        None => fields_entries(f12),
    }));
    assert(f13 =~= all);
}

/// No two fields of a header have the same name.
pub proof fn lemma_header_fields_distinct(header: Header)
    ensures
        names_distinct(header_fields(header)),
        header_fields(header).len() == 5,
{
    reveal_strlit("durable");
    reveal_strlit("priority");
    reveal_strlit("ttl");
    reveal_strlit("first_acquirer");
    reveal_strlit("delivery_count");
    let all = header_fields(header);
    let k0 = "durable"@;
    let k1 = "priority"@;
    let k2 = "ttl"@;
    let k3 = "first_acquirer"@;
    let k4 = "delivery_count"@;
    assert(k3[0] != k4[0]);
    assert forall|a: int, b: int| 0 <= a < b < all.len() implies (#[trigger] all[a]).0 != (
    #[trigger] all[b]).0 by {
        assert(all[0].0 == k0);
        assert(all[1].0 == k1);
        assert(all[2].0 == k2);
        assert(all[3].0 == k3);
        assert(all[4].0 == k4);
        assert(all[a].0.len() != all[b].0.len() || all[a].0 != all[b].0);
    }
}

/// No two fields of properties have the same name.
pub proof fn lemma_properties_fields_distinct(properties: PropertiesModel)
    ensures
        names_distinct(properties_fields(properties)),
        properties_fields(properties).len() == 13,
{
    reveal_strlit("message_id");
    reveal_strlit("user_id");
    reveal_strlit("to");
    reveal_strlit("subject");
    reveal_strlit("reply_to");
    reveal_strlit("correlation_id");
    reveal_strlit("content_type");
    reveal_strlit("content_encoding");
    reveal_strlit("absolute_expiry_time");
    reveal_strlit("creation_time");
    reveal_strlit("group_id");
    reveal_strlit("group_sequence");
    reveal_strlit("reply_to_group_id");
    let all = properties_fields(properties);
    let k0 = "message_id"@;
    let k1 = "user_id"@;
    let k2 = "to"@;
    let k3 = "subject"@;
    let k4 = "reply_to"@;
    let k5 = "correlation_id"@;
    let k6 = "content_type"@;
    let k7 = "content_encoding"@;
    let k8 = "absolute_expiry_time"@;
    let k9 = "creation_time"@;
    let k10 = "group_id"@;
    let k11 = "group_sequence"@;
    let k12 = "reply_to_group_id"@;
    assert(k1[0] != k3[0]);
    assert(k4[0] != k10[0]);
    assert(k5[0] != k11[0]);
    assert forall|a: int, b: int| 0 <= a < b < all.len() implies (#[trigger] all[a]).0 != (
    #[trigger] all[b]).0 by {
        assert(all[0].0 == k0);
        assert(all[1].0 == k1);
        assert(all[2].0 == k2);
        assert(all[3].0 == k3);
        assert(all[4].0 == k4);
        assert(all[5].0 == k5);
        assert(all[6].0 == k6);
        assert(all[7].0 == k7);
        assert(all[8].0 == k8);
        assert(all[9].0 == k9);
        assert(all[10].0 == k10);
        assert(all[11].0 == k11);
        assert(all[12].0 == k12);
        assert(all[a].0.len() != all[b].0.len() || all[a].0 != all[b].0);
    }
}

/// Reading the map of a header gives the header back.
pub proof fn lemma_header_round_trip(header: Header)
    ensures
        header_from(header_entries(header)) == header,
        keys_unique(ValueModel::Mapping(header_entries(header))),
{
    let fields = header_fields(header);
    let entries = header_entries(header);
    lemma_header_entries_are_fields(header);
    lemma_header_fields_distinct(header);
    lemma_fields_entries(fields);
    lemma_fields_lookup(fields, 0);
    lemma_fields_lookup(fields, 1);
    lemma_fields_lookup(fields, 2);
    lemma_fields_lookup(fields, 3);
    lemma_fields_lookup(fields, 4);
    assert forall|t: int| 0 <= t < entries.len() implies keys_unique((#[trigger] entries[t]).1) by {
        let j = choose|j: int|
            0 <= j < fields.len() && (#[trigger] fields[j]).1 == Some((#[trigger] entries[t]).1);
    }
    lemma_entries_keys_unique(entries, entries.len());
}

/// The ids of the properties, where they are set, have no map with a key
/// twice.
pub open spec fn ids_keys_unique(properties: PropertiesModel) -> bool {
    &&& properties.message_id matches Some(id) ==> keys_unique(id)
    &&& properties.correlation_id matches Some(id) ==> keys_unique(id)
}

/// Reading the map of properties gives the properties back.
pub proof fn lemma_properties_round_trip(properties: PropertiesModel)
    requires
        ids_keys_unique(properties),
    ensures
        properties_from(properties_entries(properties)) == properties,
        keys_unique(ValueModel::Mapping(properties_entries(properties))),
{
    let fields = properties_fields(properties);
    let entries = properties_entries(properties);
    lemma_properties_entries_are_fields(properties);
    lemma_properties_fields_distinct(properties);
    lemma_fields_entries(fields);
    lemma_fields_lookup(fields, 0);
    lemma_fields_lookup(fields, 1);
    lemma_fields_lookup(fields, 2);
    lemma_fields_lookup(fields, 3);
    lemma_fields_lookup(fields, 4);
    lemma_fields_lookup(fields, 5);
    lemma_fields_lookup(fields, 6);
    lemma_fields_lookup(fields, 7);
    lemma_fields_lookup(fields, 8);
    lemma_fields_lookup(fields, 9);
    lemma_fields_lookup(fields, 10);
    lemma_fields_lookup(fields, 11);
    lemma_fields_lookup(fields, 12);
    assert forall|t: int| 0 <= t < entries.len() implies keys_unique((#[trigger] entries[t]).1) by {
        let j = choose|j: int|
            0 <= j < fields.len() && (#[trigger] fields[j]).1 == Some((#[trigger] entries[t]).1);
    }
    lemma_entries_keys_unique(entries, entries.len());
}

/// A section that is a map has no key twice, at any depth.
pub open spec fn section_keys_unique(section: Option<Seq<(Seq<char>, ValueModel)>>) -> bool {
    match section {
        Some(entries) => keys_unique(ValueModel::Mapping(entries)),
        None => true,
    }
}

/// The values of a body that is not made of several parts have no map
/// with a key twice.
pub open spec fn part_keys_unique(part: BodyModel) -> bool {
    match part {
        BodyModel::Value(value) => keys_unique(value),
        BodyModel::Sequence(items) => keys_unique(ValueModel::List(items)),
        _ => true,
    }
}

/// The values of a body have no map with a key twice.
pub open spec fn body_keys_unique(body: Option<BodyModel>) -> bool {
    match body {
        Some(BodyModel::Multiple(parts)) => forall|i: int|
            0 <= i < parts.len() ==> part_keys_unique(#[trigger] parts[i]),
        Some(part) => part_keys_unique(part),
        None => true,
    }
}

/// No map of the message, at any depth, has a key twice.
pub open spec fn message_keys_unique(m: MessageModel) -> bool {
    &&& section_keys_unique(m.delivery_annotations)
    &&& section_keys_unique(m.message_annotations)
    &&& m.properties matches Some(properties) ==> ids_keys_unique(properties)
    &&& section_keys_unique(m.application_properties)
    &&& body_keys_unique(m.body)
    &&& section_keys_unique(m.footer)
}

/// The code of the section that `bytes` start with, or -1 where they
/// start with none.
pub open spec fn leading_code(bytes: Seq<u8>) -> int {
    if bytes.len() >= 3 && bytes[0] == 0x00 && bytes[1] == 0x53 {
        bytes[2] as int
    } else {
        -1
    }
}

/// What is written behind the three octets of a section starts with that
/// section, and behind the three octets it goes on as written.
proof fn lemma_marker(code: u8, payload: Seq<u8>, rest: Seq<u8>)
    ensures
        leading_code(marker(code) + payload + rest) == code,
        (marker(code) + payload + rest).skip(3) == payload + rest,
{
    let whole = marker(code) + payload + rest;
    assert(whole[0] == 0x00);
    assert(whole[1] == 0x53);
    assert(whole[2] == code);
    assert(whole.skip(3) =~= payload + rest);
}

/// A section that is a map is read back where it is present, and is seen
/// to be absent where it is and what follows starts with no section of
/// its code.
proof fn lemma_section_round_trip(
    code: u8,
    section: Option<Seq<(Seq<char>, ValueModel)>>,
    rest: Seq<u8>,
)
    requires
        section_fits(section),
        section_keys_unique(section),
        section is None ==> leading_code(rest) != code,
    ensures
        parse_section(wire_section(code, section) + rest, code) == Some(
            (section, wire_section(code, section).len() as int),
        ),
        (wire_section(code, section) + rest).skip(wire_section(code, section).len() as int)
            == rest,
        leading_code(wire_section(code, section) + rest) == (if section is Some {
            code as int
        } else {
            leading_code(rest)
        }),
{
    reveal(parse_section);
    let written = wire_section(code, section);
    match section {
        Some(entries) => {
            let value = ValueModel::Mapping(entries);
            lemma_marker(code, wire_value(value), rest);
            lemma_round_trip(value, rest);
            assert(written + rest =~= marker(code) + wire_value(value) + rest);
            assert((written + rest).skip(written.len() as int) =~= rest);
        },
        None => {
            assert(written + rest =~= rest);
            assert(rest.skip(0) =~= rest);
        },
    }
}

/// A body that is not made of several parts is read back from its
/// octets, whatever follows them.
proof fn lemma_part_round_trip(part: BodyModel, rest: Seq<u8>)
    requires
        part_fits(part),
        part_keys_unique(part),
    ensures
        parse_part(wire_part(part) + rest) == Some((part, wire_part(part).len() as int)),
        wire_part(part).len() > 3,
        (wire_part(part) + rest).skip(wire_part(part).len() as int) == rest,
        leading_code(wire_part(part) + rest) == DATA_CODE || leading_code(wire_part(part) + rest)
            == SEQUENCE_CODE || leading_code(wire_part(part) + rest) == VALUE_CODE,
{
    reveal(parse_part);
    let written = wire_part(part);
    let (code, value) = match part {
        BodyModel::Data(data) => (DATA_CODE, ValueModel::Binary(data)),
        BodyModel::Sequence(items) => (SEQUENCE_CODE, ValueModel::List(items)),
        BodyModel::Value(value) => (VALUE_CODE, value),
        BodyModel::Multiple(_) => (VALUE_CODE, ValueModel::Null),
    };
    lemma_marker(code, wire_value(value), rest);
    lemma_round_trip(value, rest);
    lemma_wire_value_nonempty(value);
    assert(written + rest =~= marker(code) + wire_value(value) + rest);
    assert((written + rest).skip(written.len() as int) =~= rest);
}

/// The octets of some parts, one after the other, start with the octets
/// of the first part.
proof fn lemma_wire_parts_first(parts: Seq<BodyModel>, n: nat)
    requires
        1 <= n <= parts.len(),
    ensures
        wire_parts(parts, n) == wire_part(parts[0]) + wire_parts(parts.skip(1), (n - 1) as nat),
    decreases n,
{
    let tail = parts.skip(1);
    if n == 1 {
        assert(wire_parts(parts, 0) =~= Seq::<u8>::empty());
        assert(wire_parts(tail, 0) =~= Seq::<u8>::empty());
        assert(wire_parts(parts, 1) =~= wire_part(parts[0]) + wire_parts(tail, 0));
    } else {
        lemma_wire_parts_first(parts, (n - 1) as nat);
        assert(tail[n - 2] == parts[n - 1]);
        assert(wire_parts(parts, n) =~= wire_part(parts[0]) + wire_parts(tail, (n - 1) as nat));
    }
}

/// The parts of `parts` from index `from` on, written one after the
/// other, are read back in order and added to `seen`.
proof fn lemma_parts_round_trip(
    parts: Seq<BodyModel>,
    from: nat,
    seen: Seq<BodyModel>,
    rest: Seq<u8>,
)
    requires
        from <= parts.len(),
        forall|i: int| 0 <= i < parts.len() ==> part_fits(#[trigger] parts[i]),
        forall|i: int| 0 <= i < parts.len() ==> part_keys_unique(#[trigger] parts[i]),
    ensures
        parse_parts(
            wire_parts(parts.skip(from as int), (parts.len() - from) as nat) + rest,
            (parts.len() - from) as nat,
            seen,
        ) == Some(
            (
                seen + parts.skip(from as int),
                wire_parts(parts.skip(from as int), (parts.len() - from) as nat).len() as int,
            ),
        ),
    decreases parts.len() - from,
{
    let tail = parts.skip(from as int);
    let n = (parts.len() - from) as nat;
    if n == 0 {
        assert(seen + tail =~= seen);
        assert(wire_parts(tail, 0) =~= Seq::<u8>::empty());
    } else {
        let part = parts[from as int];
        let next = parts.skip(from as int + 1);
        let first = wire_part(part);
        let more = wire_parts(next, (n - 1) as nat);
        lemma_wire_parts_first(tail, n);
        assert(tail[0] == part);
        assert(tail.skip(1) =~= next);
        let whole = wire_parts(tail, n) + rest;
        assert(whole =~= first + (more + rest));
        lemma_part_round_trip(part, more + rest);
        lemma_parts_round_trip(parts, from + 1, seen.push(part), rest);
        assert(seen.push(part) + next =~= seen + tail);
    }
}

/// A body is read back where it is present, and is seen to be absent
/// where it is and what follows starts with no body.
proof fn lemma_body_round_trip(body: Option<BodyModel>, rest: Seq<u8>)
    requires
        body_fits(body),
        body_keys_unique(body),
        body is None ==> leading_code(rest) != MULTIPLE_CODE && leading_code(rest) != DATA_CODE
            && leading_code(rest) != SEQUENCE_CODE && leading_code(rest) != VALUE_CODE,
    ensures
        parse_body(wire_body(body) + rest) == Some((body, wire_body(body).len() as int)),
        (wire_body(body) + rest).skip(wire_body(body).len() as int) == rest,
        body is None ==> leading_code(wire_body(body) + rest) == leading_code(rest),
        body is Some ==> leading_code(wire_body(body) + rest) == MULTIPLE_CODE || leading_code(
            wire_body(body) + rest,
        ) == DATA_CODE || leading_code(wire_body(body) + rest) == SEQUENCE_CODE || leading_code(
            wire_body(body) + rest,
        ) == VALUE_CODE,
{
    reveal(parse_body);
    let written = wire_body(body);
    match body {
        Some(BodyModel::Multiple(parts)) => {
            let count = ValueModel::Uint(parts.len() as u32);
            let payload = wire_parts(parts, parts.len());
            lemma_marker(MULTIPLE_CODE, wire_value(count) + payload, rest);
            assert(written + rest =~= marker(MULTIPLE_CODE) + (wire_value(count) + payload)
                + rest);
            lemma_round_trip(count, payload + rest);
            lemma_wire_value_nonempty(count);
            assert((written + rest).skip(3) =~= wire_value(count) + (payload + rest));
            assert((written + rest).skip(3 + wire_value(count).len() as int) =~= payload + rest);
            lemma_parts_fit(parts, parts.len());
            lemma_parts_round_trip(parts, 0, Seq::empty(), rest);
            assert(parts.skip(0) =~= parts);
            assert(Seq::<BodyModel>::empty() + parts =~= parts);
            assert((written + rest).skip(written.len() as int) =~= rest);
        },
        Some(part) => {
            lemma_part_round_trip(part, rest);
        },
        None => {
            assert(written + rest =~= rest);
            assert(rest.skip(0) =~= rest);
        },
    }
}

/// The message that is read where each of its sections is read in its
/// turn.
proof fn lemma_parse_message_steps(
    bytes: Seq<u8>,
    header: Option<Seq<(Seq<char>, ValueModel)>>,
    u0: int,
    delivery: Option<Seq<(Seq<char>, ValueModel)>>,
    u1: int,
    annotations: Option<Seq<(Seq<char>, ValueModel)>>,
    u2: int,
    properties: Option<Seq<(Seq<char>, ValueModel)>>,
    u3: int,
    application: Option<Seq<(Seq<char>, ValueModel)>>,
    u4: int,
    body: Option<BodyModel>,
    u5: int,
    footer: Option<Seq<(Seq<char>, ValueModel)>>,
    u6: int,
)
    requires
        parse_section(bytes, HEADER_CODE) == Some((header, u0)),
        parse_section(bytes.skip(u0), DELIVERY_ANNOTATIONS_CODE) == Some((delivery, u1)),
        parse_section(bytes.skip(u0 + u1), MESSAGE_ANNOTATIONS_CODE) == Some((annotations, u2)),
        parse_section(bytes.skip(u0 + u1 + u2), PROPERTIES_CODE) == Some((properties, u3)),
        parse_section(bytes.skip(u0 + u1 + u2 + u3), APPLICATION_PROPERTIES_CODE) == Some(
            (application, u4),
        ),
        parse_body(bytes.skip(u0 + u1 + u2 + u3 + u4)) == Some((body, u5)),
        parse_section(bytes.skip(u0 + u1 + u2 + u3 + u4 + u5), FOOTER_CODE) == Some((footer, u6)),
    ensures
        parse_message(bytes) == Some(
            (
                MessageModel {
                    header: header_of(header),
                    delivery_annotations: delivery,
                    message_annotations: annotations,
                    properties: properties_of(properties),
                    application_properties: application,
                    body,
                    footer,
                },
                u0 + u1 + u2 + u3 + u4 + u5 + u6,
            ),
        ),
{
}

/// The sections of a message, written in their order, are read back one
/// by one.
#[verifier::rlimit(100)]
proof fn lemma_sections_round_trip(
    header: Option<Seq<(Seq<char>, ValueModel)>>,
    delivery: Option<Seq<(Seq<char>, ValueModel)>>,
    annotations: Option<Seq<(Seq<char>, ValueModel)>>,
    properties: Option<Seq<(Seq<char>, ValueModel)>>,
    application: Option<Seq<(Seq<char>, ValueModel)>>,
    body: Option<BodyModel>,
    footer: Option<Seq<(Seq<char>, ValueModel)>>,
)
    requires
        section_fits(header),
        section_keys_unique(header),
        section_fits(delivery),
        section_keys_unique(delivery),
        section_fits(annotations),
        section_keys_unique(annotations),
        section_fits(properties),
        section_keys_unique(properties),
        section_fits(application),
        section_keys_unique(application),
        body_fits(body),
        body_keys_unique(body),
        section_fits(footer),
        section_keys_unique(footer),
    ensures
        ({
            let whole = wire_sections(
                header,
                delivery,
                annotations,
                properties,
                application,
                body,
                footer,
            );
            parse_message(whole) == Some(
                (
                    MessageModel {
                        header: header_of(header),
                        delivery_annotations: delivery,
                        message_annotations: annotations,
                        properties: properties_of(properties),
                        application_properties: application,
                        body,
                        footer,
                    },
                    whole.len() as int,
                ),
            )
        }),
{
    let s0 = wire_section(HEADER_CODE, header);
    let s1 = wire_section(DELIVERY_ANNOTATIONS_CODE, delivery);
    let s2 = wire_section(MESSAGE_ANNOTATIONS_CODE, annotations);
    let s3 = wire_section(PROPERTIES_CODE, properties);
    let s4 = wire_section(APPLICATION_PROPERTIES_CODE, application);
    let s5 = wire_body(body);
    let s6 = wire_section(FOOTER_CODE, footer);
    let r6 = Seq::<u8>::empty();
    let r5 = s6 + r6;
    let r4 = s5 + r5;
    let r3 = s4 + r4;
    let r2 = s3 + r3;
    let r1 = s2 + r2;
    let r0 = s1 + r1;
    let whole = s0 + r0;
    assert(whole =~= wire_sections(
        header,
        delivery,
        annotations,
        properties,
        application,
        body,
        footer,
    ));
    lemma_section_round_trip(FOOTER_CODE, footer, r6);
    lemma_body_round_trip(body, r5);
    lemma_section_round_trip(APPLICATION_PROPERTIES_CODE, application, r4);
    lemma_section_round_trip(PROPERTIES_CODE, properties, r3);
    lemma_section_round_trip(MESSAGE_ANNOTATIONS_CODE, annotations, r2);
    lemma_section_round_trip(DELIVERY_ANNOTATIONS_CODE, delivery, r1);
    lemma_section_round_trip(HEADER_CODE, header, r0);
    let u0 = s0.len() as int;
    let u1 = s1.len() as int;
    let u2 = s2.len() as int;
    let u3 = s3.len() as int;
    let u4 = s4.len() as int;
    let u5 = s5.len() as int;
    let u6 = s6.len() as int;
    assert(whole.skip(u0) == r0);
    assert(whole.skip(u0 + u1) =~= r0.skip(u1));
    assert(whole.skip(u0 + u1 + u2) =~= r1.skip(u2));
    assert(whole.skip(u0 + u1 + u2 + u3) =~= r2.skip(u3));
    assert(whole.skip(u0 + u1 + u2 + u3 + u4) =~= r3.skip(u4));
    assert(whole.skip(u0 + u1 + u2 + u3 + u4 + u5) =~= r4.skip(u5));
    assert(whole.len() == u0 + u1 + u2 + u3 + u4 + u5 + u6);
    lemma_parse_message_steps(
        whole,
        header,
        u0,
        delivery,
        u1,
        annotations,
        u2,
        properties,
        u3,
        application,
        u4,
        body,
        u5,
        footer,
        u6,
    );
}

/// The header of a message as a section can be read back as the header,
/// and has no key twice.
proof fn lemma_header_section(header: Option<Header>)
    ensures
        header_of(header_section(header)) == header,
        section_keys_unique(header_section(header)),
{
    match header {
        Some(h) => {
            lemma_header_round_trip(h);
        },
        None => {},
    }
}

/// The properties of a message as a section can be read back as the
/// properties, and have no key twice where the ids have none.
proof fn lemma_properties_section(properties: Option<PropertiesModel>)
    requires
        properties matches Some(p) ==> ids_keys_unique(p),
    ensures
        properties_of(properties_section(properties)) == properties,
        section_keys_unique(properties_section(properties)),
{
    match properties {
        Some(p) => {
            lemma_properties_round_trip(p);
        },
        None => {},
    }
}

/// Decoding what was encoded gives the message back, with every section
/// and the kind of its body as they were, and takes all the octets: for
/// every message that can be written and whose maps have no key twice.
pub proof fn message_round_trip(m: MessageModel)
    requires
        message_fits(m),
        message_keys_unique(m),
    ensures
        parse_message(wire_message(m)) == Some((m, wire_message(m).len() as int)),
        whole_message(wire_message(m)) == Some(m),
{
    lemma_header_section(m.header);
    lemma_properties_section(m.properties);
    lemma_sections_round_trip(
        header_section(m.header),
        m.delivery_annotations,
        m.message_annotations,
        properties_section(m.properties),
        m.application_properties,
        m.body,
        m.footer,
    );
}

} // verus!
