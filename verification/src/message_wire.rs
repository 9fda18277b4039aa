//! The wire format of messages as mathematics: the octets of a message
//! section by section, and the message that a run of octets stands for.
//!
//! Each section that is present is written as three octets that say which
//! section it is, `0x00 0x53` and the section's code, and then the
//! section's value: a map for the header, the annotations, the properties,
//! the application properties and the footer; a binary for a data body,
//! a list for a sequence body, the value itself for a value body. A body
//! of several parts is written as its own code, the number of its parts,
//! and then the parts, each as a body of its own.

use vstd::prelude::*;
use crate::message::{BodyModel, Header, MessageModel, PropertiesModel};
use crate::types::{lookup, with_entry, ValueModel};
use crate::wire::{fits, parse_value, wire_value};

verus! {

/// The entries of a header as a map: one entry for each field that is
/// set, under the field's name, in the order of the fields.
pub open spec fn header_entries(header: Header) -> Seq<(Seq<char>, ValueModel)> {
    let e = Seq::<(Seq<char>, ValueModel)>::empty();
    let e = match header.durable {
        Some(x) => with_entry(e, "durable"@, ValueModel::Boolean(x)),
        None => e,
    };
    let e = match header.priority {
        Some(x) => with_entry(e, "priority"@, ValueModel::Ubyte(x)),
        None => e,
    };
    let e = match header.ttl {
        Some(x) => with_entry(e, "ttl"@, ValueModel::Uint(x)),
        None => e,
    };
    let e = match header.first_acquirer {
        Some(x) => with_entry(e, "first_acquirer"@, ValueModel::Boolean(x)),
        None => e,
    };
    let e = match header.delivery_count {
        Some(x) => with_entry(e, "delivery_count"@, ValueModel::Uint(x)),
        None => e,
    };
    e
}

/// The header that a map stands for: each field is set where the map has
/// an entry of the field's type under the field's name.
pub open spec fn header_from(entries: Seq<(Seq<char>, ValueModel)>) -> Header {
    Header {
        durable: match lookup(entries, "durable"@) {
            Some(ValueModel::Boolean(x)) => Some(x),
            _ => None,
        },
        priority: match lookup(entries, "priority"@) {
            Some(ValueModel::Ubyte(x)) => Some(x),
            _ => None,
        },
        ttl: match lookup(entries, "ttl"@) {
            Some(ValueModel::Uint(x)) => Some(x),
            _ => None,
        },
        first_acquirer: match lookup(entries, "first_acquirer"@) {
            Some(ValueModel::Boolean(x)) => Some(x),
            _ => None,
        },
        delivery_count: match lookup(entries, "delivery_count"@) {
            Some(ValueModel::Uint(x)) => Some(x),
            _ => None,
        },
    }
}

/// The entries of properties as a map: one entry for each field that is
/// set, under the field's name, in the order of the fields.
pub open spec fn properties_entries(properties: PropertiesModel) -> Seq<(Seq<char>, ValueModel)> {
    let e = Seq::<(Seq<char>, ValueModel)>::empty();
    let e = match properties.message_id {
        Some(x) => with_entry(e, "message_id"@, x),
        None => e,
    };
    let e = match properties.user_id {
        Some(x) => with_entry(e, "user_id"@, ValueModel::Binary(x)),
        None => e,
    };
    let e = match properties.to {
        Some(x) => with_entry(e, "to"@, ValueModel::String(x)),
        None => e,
    };
    let e = match properties.subject {
        Some(x) => with_entry(e, "subject"@, ValueModel::String(x)),
        None => e,
    };
    let e = match properties.reply_to {
        Some(x) => with_entry(e, "reply_to"@, ValueModel::String(x)),
        None => e,
    };
    let e = match properties.correlation_id {
        Some(x) => with_entry(e, "correlation_id"@, x),
        None => e,
    };
    let e = match properties.content_type {
        Some(x) => with_entry(e, "content_type"@, ValueModel::Symbol(x)),
        None => e,
    };
    let e = match properties.content_encoding {
        Some(x) => with_entry(e, "content_encoding"@, ValueModel::Symbol(x)),
        None => e,
    };
    let e = match properties.absolute_expiry_time {
        Some(x) => with_entry(e, "absolute_expiry_time"@, ValueModel::Timestamp(x)),
        None => e,
    };
    let e = match properties.creation_time {
        Some(x) => with_entry(e, "creation_time"@, ValueModel::Timestamp(x)),
        None => e,
    };
    let e = match properties.group_id {
        Some(x) => with_entry(e, "group_id"@, ValueModel::String(x)),
        None => e,
    };
    let e = match properties.group_sequence {
        Some(x) => with_entry(e, "group_sequence"@, ValueModel::Uint(x)),
        None => e,
    };
    let e = match properties.reply_to_group_id {
        Some(x) => with_entry(e, "reply_to_group_id"@, ValueModel::String(x)),
        None => e,
    };
    e
}

/// The properties that a map stands for: each field is set where the map
/// has an entry of the field's type under the field's name; the two ids
/// take a value of any type.
pub open spec fn properties_from(entries: Seq<(Seq<char>, ValueModel)>) -> PropertiesModel {
    PropertiesModel {
        message_id: lookup(entries, "message_id"@),
        user_id: match lookup(entries, "user_id"@) {
            Some(ValueModel::Binary(x)) => Some(x),
            _ => None,
        },
        to: match lookup(entries, "to"@) {
            Some(ValueModel::String(x)) => Some(x),
            _ => None,
        },
        subject: match lookup(entries, "subject"@) {
            Some(ValueModel::String(x)) => Some(x),
            _ => None,
        },
        reply_to: match lookup(entries, "reply_to"@) {
            Some(ValueModel::String(x)) => Some(x),
            _ => None,
        },
        correlation_id: lookup(entries, "correlation_id"@),
        content_type: match lookup(entries, "content_type"@) {
            Some(ValueModel::Symbol(x)) => Some(x),
            _ => None,
        },
        content_encoding: match lookup(entries, "content_encoding"@) {
            Some(ValueModel::Symbol(x)) => Some(x),
            _ => None,
        },
        absolute_expiry_time: match lookup(entries, "absolute_expiry_time"@) {
            Some(ValueModel::Timestamp(x)) => Some(x),
            _ => None,
        },
        creation_time: match lookup(entries, "creation_time"@) {
            Some(ValueModel::Timestamp(x)) => Some(x),
            _ => None,
        },
        group_id: match lookup(entries, "group_id"@) {
            Some(ValueModel::String(x)) => Some(x),
            _ => None,
        },
        group_sequence: match lookup(entries, "group_sequence"@) {
            Some(ValueModel::Uint(x)) => Some(x),
            _ => None,
        },
        reply_to_group_id: match lookup(entries, "reply_to_group_id"@) {
            Some(ValueModel::String(x)) => Some(x),
            _ => None,
        },
    }
}

/// The code of the header section.
pub const HEADER_CODE: u8 = 0x70;

/// The code of the delivery annotations.
pub const DELIVERY_ANNOTATIONS_CODE: u8 = 0x71;

/// The code of the message annotations.
pub const MESSAGE_ANNOTATIONS_CODE: u8 = 0x72;

/// The code of the properties.
pub const PROPERTIES_CODE: u8 = 0x73;

/// The code of the application properties.
pub const APPLICATION_PROPERTIES_CODE: u8 = 0x74;

/// The code of a body that is data.
pub const DATA_CODE: u8 = 0x75;

/// The code of a body that is a sequence.
pub const SEQUENCE_CODE: u8 = 0x76;

/// The code of a body that is a single value.
pub const VALUE_CODE: u8 = 0x77;

/// The code of the footer.
pub const FOOTER_CODE: u8 = 0x78;

/// The code of a body of several parts.
pub const MULTIPLE_CODE: u8 = 0x79;

/// The three octets that start the section with the given code.
pub open spec fn marker(code: u8) -> Seq<u8> {
    seq![0x00u8, 0x53u8, code]
}

/// True when `bytes` start with the three octets that start the section
/// with the given code.
pub open spec fn starts_section(bytes: Seq<u8>, code: u8) -> bool {
    bytes.len() >= 3 && bytes[0] == 0x00 && bytes[1] == 0x53 && bytes[2] == code
}

/// The octets of a section that is a map, or none where it is absent.
pub open spec fn wire_section(code: u8, section: Option<Seq<(Seq<char>, ValueModel)>>) -> Seq<u8> {
    match section {
        Some(entries) => marker(code) + wire_value(ValueModel::Mapping(entries)),
        None => Seq::empty(),
    }
}

/// A section that is a map fits where it is absent or every length in it
/// fits.
pub open spec fn section_fits(section: Option<Seq<(Seq<char>, ValueModel)>>) -> bool {
    match section {
        Some(entries) => fits(ValueModel::Mapping(entries)),
        None => true,
    }
}

/// The section with the given code at the start of `bytes`: its entries
/// and the octets it takes; no entries and no octets where `bytes` do not
/// start with that section; `None` where they do and no map follows.
#[verifier::opaque]
pub open spec fn parse_section(bytes: Seq<u8>, code: u8) -> Option<
    (Option<Seq<(Seq<char>, ValueModel)>>, int),
> {
    if starts_section(bytes, code) {
        match parse_value(bytes.skip(3)) {
            Some((ValueModel::Mapping(entries), used)) => Some((Some(entries), 3 + used)),
            _ => None,
        }
    } else {
        Some((None, 0))
    }
}

/// The octets of a body that is not made of several parts: its code, and
/// then data as a binary, a sequence as a list, a value as itself.
pub open spec fn wire_part(part: BodyModel) -> Seq<u8> {
    match part {
        BodyModel::Data(data) => marker(DATA_CODE) + wire_value(ValueModel::Binary(data)),
        BodyModel::Sequence(items) => marker(SEQUENCE_CODE) + wire_value(ValueModel::List(items)),
        BodyModel::Value(value) => marker(VALUE_CODE) + wire_value(value),
        BodyModel::Multiple(_) => Seq::empty(),
    }
}

/// A body that is not made of several parts can be written where every
/// length in it fits. A body of several parts cannot be a part.
pub open spec fn part_fits(part: BodyModel) -> bool {
    match part {
        BodyModel::Data(data) => fits(ValueModel::Binary(data)),
        BodyModel::Sequence(items) => fits(ValueModel::List(items)),
        BodyModel::Value(value) => fits(value),
        BodyModel::Multiple(_) => false,
    }
}

/// The body that is not made of several parts at the start of `bytes`
/// and the octets it takes, or `None` where `bytes` do not start with
/// such a body: with the code of one and a value of its kind.
#[verifier::opaque]
pub open spec fn parse_part(bytes: Seq<u8>) -> Option<(BodyModel, int)> {
    if starts_section(bytes, DATA_CODE) {
        match parse_value(bytes.skip(3)) {
            Some((ValueModel::Binary(data), used)) => Some((BodyModel::Data(data), 3 + used)),
            _ => None,
        }
    } else if starts_section(bytes, SEQUENCE_CODE) {
        match parse_value(bytes.skip(3)) {
            Some((ValueModel::List(items), used)) => Some((BodyModel::Sequence(items), 3 + used)),
            _ => None,
        }
    } else if starts_section(bytes, VALUE_CODE) {
        match parse_value(bytes.skip(3)) {
            Some((value, used)) => Some((BodyModel::Value(value), 3 + used)),
            None => None,
        }
    } else {
        None
    }
}

/// The octets of the first `n` of `parts`, one after the other.
pub open spec fn wire_parts(parts: Seq<BodyModel>, n: nat) -> Seq<u8>
    decreases n,
{
    if n == 0 || n > parts.len() {
        Seq::empty()
    } else {
        wire_parts(parts, (n - 1) as nat) + wire_part(parts[n - 1])
    }
}

/// Each of the first `n` of `parts` can be written.
pub open spec fn parts_fit(parts: Seq<BodyModel>, n: nat) -> bool
    decreases n,
{
    if n == 0 || n > parts.len() {
        true
    } else {
        parts_fit(parts, (n - 1) as nat) && part_fits(parts[n - 1])
    }
}

/// `count` parts read one after the other from the start of `bytes`,
/// added to `seen`, and the number of octets they take together.
pub open spec fn parse_parts(bytes: Seq<u8>, count: nat, seen: Seq<BodyModel>) -> Option<
    (Seq<BodyModel>, int),
>
    decreases count,
{
    if count == 0 {
        Some((seen, 0))
    } else {
        match parse_part(bytes) {
            Some((part, used)) => if 0 < used <= bytes.len() {
                match parse_parts(bytes.skip(used), (count - 1) as nat, seen.push(part)) {
                    Some((all, more)) => Some((all, used + more)),
                    None => None,
                }
            } else {
                None
            },
            None => None,
        }
    }
}

/// The octets of a body: a body of several parts as its code, the number
/// of its parts as a uint, and the parts one after the other; any other
/// body as itself; nothing where there is no body.
pub open spec fn wire_body(body: Option<BodyModel>) -> Seq<u8> {
    match body {
        Some(BodyModel::Multiple(parts)) => marker(MULTIPLE_CODE) + wire_value(
            ValueModel::Uint(parts.len() as u32),
        ) + wire_parts(parts, parts.len()),
        Some(part) => wire_part(part),
        None => Seq::empty(),
    }
}

/// A body can be written where each of its parts can and their number
/// fits four octets; parts nest one level only.
pub open spec fn body_fits(body: Option<BodyModel>) -> bool {
    match body {
        Some(BodyModel::Multiple(parts)) => parts.len() <= u32::MAX && parts_fit(
            parts,
            parts.len(),
        ),
        Some(part) => part_fits(part),
        None => true,
    }
}

/// The body at the start of `bytes` and the octets it takes; no body and
/// no octets where `bytes` do not start with the code of a body; `None`
/// where they do and what follows is no body of that kind.
#[verifier::opaque]
pub open spec fn parse_body(bytes: Seq<u8>) -> Option<(Option<BodyModel>, int)> {
    if starts_section(bytes, MULTIPLE_CODE) {
        match parse_value(bytes.skip(3)) {
            Some((ValueModel::Uint(count), used)) => match parse_parts(
                bytes.skip(3 + used),
                count as nat,
                Seq::empty(),
            ) {
                Some((parts, more)) => Some((Some(BodyModel::Multiple(parts)), 3 + used + more)),
                None => None,
            },
            _ => None,
        }
    } else if starts_section(bytes, DATA_CODE) || starts_section(bytes, SEQUENCE_CODE)
        || starts_section(bytes, VALUE_CODE) {
        match parse_part(bytes) {
            Some((part, used)) => Some((Some(part), used)),
            None => None,
        }
    } else {
        Some((None, 0))
    }
}

/// The header of a message as a section.
pub open spec fn header_section(header: Option<Header>) -> Option<Seq<(Seq<char>, ValueModel)>> {
    match header {
        Some(h) => Some(header_entries(h)),
        None => None,
    }
}

/// The properties of a message as a section.
pub open spec fn properties_section(properties: Option<PropertiesModel>) -> Option<
    Seq<(Seq<char>, ValueModel)>,
> {
    match properties {
        Some(p) => Some(properties_entries(p)),
        None => None,
    }
}

/// The header that a section stands for.
pub open spec fn header_of(section: Option<Seq<(Seq<char>, ValueModel)>>) -> Option<Header> {
    match section {
        Some(entries) => Some(header_from(entries)),
        None => None,
    }
}

/// The properties that a section stands for.
pub open spec fn properties_of(section: Option<Seq<(Seq<char>, ValueModel)>>) -> Option<
    PropertiesModel,
> {
    match section {
        Some(entries) => Some(properties_from(entries)),
        None => None,
    }
}

/// The octets of the sections of a message in their fixed order, absent
/// sections left out.
pub open spec fn wire_sections(
    header: Option<Seq<(Seq<char>, ValueModel)>>,
    delivery: Option<Seq<(Seq<char>, ValueModel)>>,
    annotations: Option<Seq<(Seq<char>, ValueModel)>>,
    properties: Option<Seq<(Seq<char>, ValueModel)>>,
    application: Option<Seq<(Seq<char>, ValueModel)>>,
    body: Option<BodyModel>,
    footer: Option<Seq<(Seq<char>, ValueModel)>>,
) -> Seq<u8> {
    wire_section(HEADER_CODE, header) + wire_section(DELIVERY_ANNOTATIONS_CODE, delivery)
        + wire_section(MESSAGE_ANNOTATIONS_CODE, annotations) + wire_section(
        PROPERTIES_CODE,
        properties,
    ) + wire_section(APPLICATION_PROPERTIES_CODE, application) + wire_body(body) + wire_section(
        FOOTER_CODE,
        footer,
    )
}

/// The octets of a message: its sections in their fixed order, absent
/// sections left out, the header and the properties as maps of their
/// fields.
pub open spec fn wire_message(m: MessageModel) -> Seq<u8> {
    wire_sections(
        header_section(m.header),
        m.delivery_annotations,
        m.message_annotations,
        properties_section(m.properties),
        m.application_properties,
        m.body,
        m.footer,
    )
}

/// A message can be written where each of its sections can.
pub open spec fn message_fits(m: MessageModel) -> bool {
    &&& section_fits(header_section(m.header))
    &&& section_fits(m.delivery_annotations)
    &&& section_fits(m.message_annotations)
    &&& section_fits(properties_section(m.properties))
    &&& section_fits(m.application_properties)
    &&& body_fits(m.body)
    &&& section_fits(m.footer)
}

/// The message at the start of `bytes` and the number of octets it takes.
/// The sections are read in their fixed order, each where `bytes` go on
/// with its code; what follows the last of them is left. `None` where a
/// section starts and cannot be read.
pub open spec fn parse_message(bytes: Seq<u8>) -> Option<(MessageModel, int)> {
    match parse_section(bytes, HEADER_CODE) {
        None => None,
        Some((header, u0)) => match parse_section(bytes.skip(u0), DELIVERY_ANNOTATIONS_CODE) {
            None => None,
            Some((delivery, u1)) => match parse_section(
                bytes.skip(u0 + u1),
                MESSAGE_ANNOTATIONS_CODE,
            ) {
                None => None,
                Some((annotations, u2)) => match parse_section(
                    bytes.skip(u0 + u1 + u2),
                    PROPERTIES_CODE,
                ) {
                    None => None,
                    Some((properties, u3)) => match parse_section(
                        bytes.skip(u0 + u1 + u2 + u3),
                        APPLICATION_PROPERTIES_CODE,
                    ) {
                        None => None,
                        Some((application, u4)) => match parse_body(
                            bytes.skip(u0 + u1 + u2 + u3 + u4),
                        ) {
                            None => None,
                            Some((body, u5)) => match parse_section(
                                bytes.skip(u0 + u1 + u2 + u3 + u4 + u5),
                                FOOTER_CODE,
                            ) {
                                None => None,
                                Some((footer, u6)) => Some(
                                    (
                                        MessageModel {
                                            header: header_of(header),
                                            delivery_annotations: delivery,
                                            message_annotations: annotations,
                                            properties: properties_of(properties),
                                            application_properties: application,
                                            body,
                                            footer,
                                        },
                                        u0 + u1 + u2 + u3 + u4 + u5 + u6,
                                    ),
                                ),
                            },
                        },
                    },
                },
            },
        },
    }
}

/// The message that `bytes` stand for as a whole: the message at their
/// start, where it takes all of them.
pub open spec fn whole_message(bytes: Seq<u8>) -> Option<MessageModel> {
    match parse_message(bytes) {
        Some((m, used)) => if used == bytes.len() {
            Some(m)
        } else {
            None
        },
        None => None,
    }
}

/// A section that was read takes no more octets than there are.
pub proof fn lemma_parse_section_bounds(bytes: Seq<u8>, code: u8)
    ensures
        parse_section(bytes, code) matches Some((_, used)) ==> 0 <= used <= bytes.len(),
{
    reveal(parse_section);
    if starts_section(bytes, code) {
        crate::wire::lemma_parse_value_bounds(bytes.skip(3));
    }
}

/// A part that was read takes at least four octets and no more than there
/// are.
pub proof fn lemma_parse_part_bounds(bytes: Seq<u8>)
    ensures
        parse_part(bytes) matches Some((_, used)) ==> 3 < used <= bytes.len(),
{
    reveal(parse_part);
    if bytes.len() >= 3 {
        crate::wire::lemma_parse_value_bounds(bytes.skip(3));
    }
}

/// The parts that were read take no more octets than there are.
pub proof fn lemma_parse_parts_bounds(bytes: Seq<u8>, count: nat, seen: Seq<BodyModel>)
    ensures
        parse_parts(bytes, count, seen) matches Some((all, used)) ==> 0 <= used <= bytes.len()
            && all.len() == seen.len() + count,
    decreases count,
{
    if count > 0 {
        lemma_parse_part_bounds(bytes);
        match parse_part(bytes) {
            Some((part, used)) => {
                if 0 < used <= bytes.len() {
                    lemma_parse_parts_bounds(bytes.skip(used), (count - 1) as nat, seen.push(part));
                }
            },
            None => {},
        }
    }
}

/// A body that was read takes no more octets than there are.
pub proof fn lemma_parse_body_bounds(bytes: Seq<u8>)
    ensures
        parse_body(bytes) matches Some((_, used)) ==> 0 <= used <= bytes.len(),
{
    reveal(parse_body);
    lemma_parse_part_bounds(bytes);
    if starts_section(bytes, MULTIPLE_CODE) {
        crate::wire::lemma_parse_value_bounds(bytes.skip(3));
        match parse_value(bytes.skip(3)) {
            Some((ValueModel::Uint(count), used)) => {
                lemma_parse_parts_bounds(bytes.skip(3 + used), count as nat, Seq::empty());
            },
            _ => {},
        }
    }
}

/// `parts_fit` says that each of the first `n` parts can be written.
pub proof fn lemma_parts_fit(parts: Seq<BodyModel>, n: nat)
    requires
        n <= parts.len(),
    ensures
        parts_fit(parts, n) <==> forall|i: int| 0 <= i < n ==> part_fits(#[trigger] parts[i]),
    decreases n,
{
    if n > 0 {
        lemma_parts_fit(parts, (n - 1) as nat);
    }
}

} // verus!
