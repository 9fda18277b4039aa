//! Messages: seven optional sections in a fixed order, a builder to put
//! them together, and accessors for the common cases.

use vstd::prelude::*;
use crate::ids::{uuid_hyphenated, uuid_to_string};
use crate::message_round_trip::{
    body_keys_unique, message_keys_unique, part_keys_unique, section_keys_unique,
};
use crate::types::{
    clone_list, clone_octets, items_keys_are_unique, models_of, AmqpList, AmqpMap, AmqpSymbol,
    AmqpValue, ValueModel,
};

verus! {

/// The header of a message: how it is to be delivered.
#[derive(Debug, Clone, Copy, PartialEq)]
pub struct Header {
    /// Whether the message is durable.
    pub durable: Option<bool>,
    /// Priority of the message.
    pub priority: Option<u8>,
    /// Time to live in milliseconds.
    pub ttl: Option<u32>,
    /// Whether this may be the first acquirer of the message.
    pub first_acquirer: Option<bool>,
    /// The number of earlier delivery attempts.
    pub delivery_count: Option<u32>,
}

/// The properties of a message.
#[derive(Debug, PartialEq)]
pub struct Properties {
    pub message_id: Option<AmqpValue>,
    pub user_id: Option<Vec<u8>>,
    pub to: Option<String>,
    pub subject: Option<String>,
    pub reply_to: Option<String>,
    pub correlation_id: Option<AmqpValue>,
    pub content_type: Option<AmqpSymbol>,
    pub content_encoding: Option<AmqpSymbol>,
    pub absolute_expiry_time: Option<i64>,
    pub creation_time: Option<i64>,
    pub group_id: Option<String>,
    pub group_sequence: Option<u32>,
    pub reply_to_group_id: Option<String>,
}

/// The body of a message.
#[derive(Debug, PartialEq)]
pub enum Body {
    /// Opaque octets.
    Data(Vec<u8>),
    /// A single value.
    Value(AmqpValue),
    /// A sequence of values.
    Sequence(AmqpList),
    /// Several bodies of the other three kinds, one after the other.
    Multiple(Vec<Body>),
}

/// A message.
#[derive(Debug, PartialEq)]
pub struct Message {
    pub header: Option<Header>,
    pub delivery_annotations: Option<AmqpMap>,
    pub message_annotations: Option<AmqpMap>,
    pub properties: Option<Properties>,
    pub application_properties: Option<AmqpMap>,
    pub body: Option<Body>,
    pub footer: Option<AmqpMap>,
}

/// Model of the properties of a message.
pub struct PropertiesModel {
    pub message_id: Option<ValueModel>,
    pub user_id: Option<Seq<u8>>,
    pub to: Option<Seq<char>>,
    pub subject: Option<Seq<char>>,
    pub reply_to: Option<Seq<char>>,
    pub correlation_id: Option<ValueModel>,
    pub content_type: Option<Seq<char>>,
    pub content_encoding: Option<Seq<char>>,
    pub absolute_expiry_time: Option<i64>,
    pub creation_time: Option<i64>,
    pub group_id: Option<Seq<char>>,
    pub group_sequence: Option<u32>,
    pub reply_to_group_id: Option<Seq<char>>,
}

/// Model of the body of a message.
pub enum BodyModel {
    Data(Seq<u8>),
    Value(ValueModel),
    Sequence(Seq<ValueModel>),
    Multiple(Seq<BodyModel>),
}

/// Model of a message: each section, where present, as its model.
pub struct MessageModel {
    pub header: Option<Header>,
    pub delivery_annotations: Option<Seq<(Seq<char>, ValueModel)>>,
    pub message_annotations: Option<Seq<(Seq<char>, ValueModel)>>,
    pub properties: Option<PropertiesModel>,
    pub application_properties: Option<Seq<(Seq<char>, ValueModel)>>,
    pub body: Option<BodyModel>,
    pub footer: Option<Seq<(Seq<char>, ValueModel)>>,
}

/// The model of an optional value.
pub open spec fn value_model(value: Option<AmqpValue>) -> Option<ValueModel> {
    match value {
        Some(v) => Some(v@),
        None => None,
    }
}

/// The characters of an optional string.
pub open spec fn text_model(text: Option<String>) -> Option<Seq<char>> {
    match text {
        Some(s) => Some(s@),
        None => None,
    }
}

/// The characters of an optional symbol.
pub open spec fn symbol_model(symbol: Option<AmqpSymbol>) -> Option<Seq<char>> {
    match symbol {
        Some(s) => Some(s@),
        None => None,
    }
}

/// The entries of an optional map.
pub open spec fn map_model(map: Option<AmqpMap>) -> Option<Seq<(Seq<char>, ValueModel)>> {
    match map {
        Some(m) => Some(m@),
        None => None,
    }
}

/// The model of an optional body.
pub open spec fn body_model(body: Option<Body>) -> Option<BodyModel> {
    match body {
        Some(b) => Some(b@),
        None => None,
    }
}

/// The model of optional properties.
pub open spec fn properties_model(properties: Option<Properties>) -> Option<PropertiesModel> {
    match properties {
        Some(p) => Some(p@),
        None => None,
    }
}

impl PropertiesModel {
    /// Properties with no field set.
    pub open spec fn empty() -> PropertiesModel {
        PropertiesModel {
            message_id: None,
            user_id: None,
            to: None,
            subject: None,
            reply_to: None,
            correlation_id: None,
            content_type: None,
            content_encoding: None,
            absolute_expiry_time: None,
            creation_time: None,
            group_id: None,
            group_sequence: None,
            reply_to_group_id: None,
        }
    }
}

impl MessageModel {
    /// A message with no section.
    pub open spec fn empty() -> MessageModel {
        MessageModel {
            header: None,
            delivery_annotations: None,
            message_annotations: None,
            properties: None,
            application_properties: None,
            body: None,
            footer: None,
        }
    }

    /// The properties of the message, or empty properties where it has
    /// none.
    pub open spec fn properties_or_empty(&self) -> PropertiesModel {
        match self.properties {
            Some(p) => p,
            None => PropertiesModel::empty(),
        }
    }
}

impl View for Properties {
    type V = PropertiesModel;

    open spec fn view(&self) -> PropertiesModel {
        PropertiesModel {
            message_id: value_model(self.message_id),
            user_id: match self.user_id {
                Some(d) => Some(d@),
                None => None,
            },
            to: text_model(self.to),
            subject: text_model(self.subject),
            reply_to: text_model(self.reply_to),
            correlation_id: value_model(self.correlation_id),
            content_type: symbol_model(self.content_type),
            content_encoding: symbol_model(self.content_encoding),
            absolute_expiry_time: self.absolute_expiry_time,
            creation_time: self.creation_time,
            group_id: text_model(self.group_id),
            group_sequence: self.group_sequence,
            reply_to_group_id: text_model(self.reply_to_group_id),
        }
    }
}

impl View for Body {
    type V = BodyModel;

    open spec fn view(&self) -> BodyModel
        decreases self,
    {
        match self {
            Body::Data(data) => BodyModel::Data(data@),
            Body::Value(value) => BodyModel::Value(value@),
            Body::Sequence(items) => BodyModel::Sequence(models_of(items@)),
            Body::Multiple(parts) => BodyModel::Multiple(
                Seq::new(
                    parts@.len(),
                    |i: int|
                        if 0 <= i < parts@.len() {
                            parts[i]@
                        } else {
                            BodyModel::Data(Seq::empty())
                        },
                ),
            ),
        }
    }
}

/// The models of some bodies, in order.
pub open spec fn body_models(parts: Seq<Body>) -> Seq<BodyModel> {
    Seq::new(parts.len(), |i: int| parts[i]@)
}

/// The model of a body of several parts is made of the models of the
/// parts.
pub proof fn lemma_multiple_model(parts: Vec<Body>)
    ensures
        Body::Multiple(parts)@ == BodyModel::Multiple(body_models(parts@)),
{
    reveal_with_fuel(<Body as View>::view, 2);
    let models = body_models(parts@);
    let inside = Body::Multiple(parts)@->Multiple_0;
    assert forall|i: int| 0 <= i < models.len() implies inside[i] == models[i] by {
        assert(parts[i] == parts@[i]);
    }
    assert(inside =~= models);
}

impl View for Message {
    type V = MessageModel;

    open spec fn view(&self) -> MessageModel {
        MessageModel {
            header: self.header,
            delivery_annotations: map_model(self.delivery_annotations),
            message_annotations: map_model(self.message_annotations),
            properties: properties_model(self.properties),
            application_properties: map_model(self.application_properties),
            body: body_model(self.body),
            footer: map_model(self.footer),
        }
    }
}

/// Establishes that no map in an optional map has a key twice.
fn section_keys_are_unique(section: &Option<AmqpMap>)
    ensures
        section_keys_unique(map_model(*section)),
{
    match section {
        Some(map) => {
            map.keys_are_unique();
        },
        None => {},
    }
}

/// Establishes that no map in an optional value has a key twice.
fn id_keys_are_unique(id: &Option<AmqpValue>)
    ensures
        value_model(*id) matches Some(model) ==> crate::wire::keys_unique(model),
{
    match id {
        Some(value) => {
            value.keys_are_unique();
        },
        None => {},
    }
}

/// Establishes that no map in a body that is not made of several parts
/// has a key twice.
fn part_keys_are_unique(part: &Body)
    ensures
        part_keys_unique(part@),
{
    match part {
        Body::Value(value) => {
            value.keys_are_unique();
        },
        Body::Sequence(items) => {
            items_keys_are_unique(items);
        },
        _ => {},
    }
}

impl Body {
    /// Does nothing but walk the body when run; to the verifier it says
    /// that no map in it, at any depth, has a key twice, which holds of
    /// every body.
    pub fn keys_are_unique(&self)
        ensures
            body_keys_unique(Some(self@)),
    {
        match self {
            Body::Multiple(parts) => {
                proof {
                    lemma_multiple_model(*parts);
                }
                let ghost models = body_models(parts@);
                let mut i: usize = 0;
                while i < parts.len()
                    invariant
                        i <= parts@.len(),
                        models == body_models(parts@),
                        forall|j: int| 0 <= j < i ==> part_keys_unique(#[trigger] models[j]),
                    decreases parts@.len() - i,
                {
                    part_keys_are_unique(&parts[i]);
                    assert(models[i as int] == parts@[i as int]@);
                    i = i + 1;
                }
            },
            _ => {
                part_keys_are_unique(self);
            },
        }
    }
}

impl Header {
    /// Create a new empty header.
    pub fn new() -> (header: Self)
        ensures
            header == (Header {
                durable: None,
                priority: None,
                ttl: None,
                first_acquirer: None,
                delivery_count: None,
            }),
    {
        Header {
            durable: None,
            priority: None,
            ttl: None,
            first_acquirer: None,
            delivery_count: None,
        }
    }
}

impl Default for Header {
    fn default() -> (header: Self)
        ensures
            header == (Header {
                durable: None,
                priority: None,
                ttl: None,
                first_acquirer: None,
                delivery_count: None,
            }),
    {
        Header::new()
    }
}

impl Properties {
    /// Create new empty properties.
    pub fn new() -> (properties: Self)
        ensures
            properties@ == PropertiesModel::empty(),
    {
        Properties {
            message_id: None,
            user_id: None,
            to: None,
            subject: None,
            reply_to: None,
            correlation_id: None,
            content_type: None,
            content_encoding: None,
            absolute_expiry_time: None,
            creation_time: None,
            group_id: None,
            group_sequence: None,
            reply_to_group_id: None,
        }
    }
}

impl Default for Properties {
    fn default() -> (properties: Self)
        ensures
            properties@ == PropertiesModel::empty(),
    {
        Properties::new()
    }
}

/// Copies an optional value.
fn clone_value(value: &Option<AmqpValue>) -> (copy: Option<AmqpValue>)
    ensures
        value_model(copy) == value_model(*value),
{
    match value {
        Some(v) => Some(v.clone()),
        None => None,
    }
}

/// Copies an optional string.
fn clone_text(text: &Option<String>) -> (copy: Option<String>)
    ensures
        copy == *text,
{
    match text {
        Some(s) => Some(s.clone()),
        None => None,
    }
}

/// Copies an optional symbol.
fn clone_symbol(symbol: &Option<AmqpSymbol>) -> (copy: Option<AmqpSymbol>)
    ensures
        copy == *symbol,
{
    match symbol {
        Some(s) => Some(s.clone()),
        None => None,
    }
}

/// Copies an optional map.
fn clone_map(map: &Option<AmqpMap>) -> (copy: Option<AmqpMap>)
    ensures
        map_model(copy) == map_model(*map),
{
    match map {
        Some(m) => Some(m.clone()),
        None => None,
    }
}

impl Clone for Properties {
    fn clone(&self) -> (copy: Self)
        ensures
            copy@ == self@,
    {
        Properties {
            message_id: clone_value(&self.message_id),
            user_id: match &self.user_id {
                Some(d) => Some(clone_octets(d)),
                None => None,
            },
            to: clone_text(&self.to),
            subject: clone_text(&self.subject),
            reply_to: clone_text(&self.reply_to),
            correlation_id: clone_value(&self.correlation_id),
            content_type: clone_symbol(&self.content_type),
            content_encoding: clone_symbol(&self.content_encoding),
            absolute_expiry_time: self.absolute_expiry_time,
            creation_time: self.creation_time,
            group_id: clone_text(&self.group_id),
            group_sequence: self.group_sequence,
            reply_to_group_id: clone_text(&self.reply_to_group_id),
        }
    }
}

impl Clone for Body {
    fn clone(&self) -> (copy: Self)
        ensures
            copy@ == self@,
        decreases self,
    {
        match self {
            Body::Data(data) => Body::Data(clone_octets(data)),
            Body::Value(value) => Body::Value(value.clone()),
            Body::Sequence(items) => {
                let inner = clone_list(items);
                assert(models_of(inner@) =~= models_of(items@));
                Body::Sequence(inner)
            },
            Body::Multiple(parts) => {
                let inner = clone_parts(parts);
                proof {
                    lemma_multiple_model(inner);
                    lemma_multiple_model(*parts);
                    assert(body_models(inner@) =~= body_models(parts@));
                }
                Body::Multiple(inner)
            },
        }
    }
}

/// Copies some bodies one by one.
fn clone_parts(parts: &Vec<Body>) -> (copy: Vec<Body>)
    ensures
        copy@.len() == parts@.len(),
        forall|i: int| 0 <= i < parts@.len() ==> (#[trigger] copy@[i])@ == parts@[i]@,
    decreases parts,
{
    let mut copy: Vec<Body> = Vec::new();
    let mut i: usize = 0;
    while i < parts.len()
        invariant
            i <= parts@.len(),
            copy@.len() == i,
            forall|j: int| 0 <= j < i ==> (#[trigger] copy@[j])@ == parts@[j]@,
        decreases parts@.len() - i,
    {
        let part = parts[i].clone();
        copy.push(part);
        i = i + 1;
    }
    copy
}

impl Clone for Message {
    fn clone(&self) -> (copy: Self)
        ensures
            copy@ == self@,
    {
        Message {
            header: self.header,
            delivery_annotations: clone_map(&self.delivery_annotations),
            message_annotations: clone_map(&self.message_annotations),
            properties: match &self.properties {
                Some(p) => Some(p.clone()),
                None => None,
            },
            application_properties: clone_map(&self.application_properties),
            body: match &self.body {
                Some(b) => Some(b.clone()),
                None => None,
            },
            footer: clone_map(&self.footer),
        }
    }
}

/// Puts a message together section by section.
#[derive(Debug, Clone)]
pub struct MessageBuilder {
    message: Message,
}

impl View for MessageBuilder {
    type V = MessageModel;

    /// The message as built so far.
    closed spec fn view(&self) -> MessageModel {
        self.message@
    }
}

impl MessageBuilder {
    /// Create a new message builder, with no section set.
    pub fn new() -> (builder: Self)
        ensures
            builder@ == MessageModel::empty(),
    {
        MessageBuilder { message: Message::new() }
    }

    /// Set the message header.
    pub fn header(self, header: Header) -> (builder: Self)
        ensures
            builder@ == (MessageModel { header: Some(header), ..self@ }),
    {
        let mut message = self.message;
        message.header = Some(header);
        MessageBuilder { message }
    }

    /// Set delivery annotations.
    pub fn delivery_annotations(self, annotations: AmqpMap) -> (builder: Self)
        ensures
            builder@ == (MessageModel { delivery_annotations: Some(annotations@), ..self@ }),
    {
        let mut message = self.message;
        message.delivery_annotations = Some(annotations);
        MessageBuilder { message }
    }

    /// Set message annotations.
    pub fn message_annotations(self, annotations: AmqpMap) -> (builder: Self)
        ensures
            builder@ == (MessageModel { message_annotations: Some(annotations@), ..self@ }),
    {
        let mut message = self.message;
        message.message_annotations = Some(annotations);
        MessageBuilder { message }
    }

    /// Set message properties.
    pub fn properties(self, properties: Properties) -> (builder: Self)
        ensures
            builder@ == (MessageModel { properties: Some(properties@), ..self@ }),
    {
        let mut message = self.message;
        message.properties = Some(properties);
        MessageBuilder { message }
    }

    /// Set application properties.
    pub fn application_properties(self, properties: AmqpMap) -> (builder: Self)
        ensures
            builder@ == (MessageModel { application_properties: Some(properties@), ..self@ }),
    {
        let mut message = self.message;
        message.application_properties = Some(properties);
        MessageBuilder { message }
    }

    /// Set message body.
    pub fn body(self, body: Body) -> (builder: Self)
        ensures
            builder@ == (MessageModel { body: Some(body@), ..self@ }),
    {
        let mut message = self.message;
        message.body = Some(body);
        MessageBuilder { message }
    }

    /// Set footer.
    pub fn footer(self, footer: AmqpMap) -> (builder: Self)
        ensures
            builder@ == (MessageModel { footer: Some(footer@), ..self@ }),
    {
        let mut message = self.message;
        message.footer = Some(footer);
        MessageBuilder { message }
    }

    /// Build the message.
    pub fn build(self) -> (message: Message)
        ensures
            message@ == self@,
    {
        self.message
    }
}

impl Default for MessageBuilder {
    fn default() -> (builder: Self)
        ensures
            builder@ == MessageModel::empty(),
    {
        MessageBuilder::new()
    }
}

impl Message {
    /// Does nothing but walk the message when run; to the verifier it
    /// says that no map in it, at any depth, has a key twice, which
    /// holds of every message.
    pub fn keys_are_unique(&self)
        ensures
            message_keys_unique(self@),
    {
        section_keys_are_unique(&self.delivery_annotations);
        section_keys_are_unique(&self.message_annotations);
        match &self.properties {
            Some(properties) => {
                id_keys_are_unique(&properties.message_id);
                id_keys_are_unique(&properties.correlation_id);
            },
            None => {},
        }
        section_keys_are_unique(&self.application_properties);
        match &self.body {
            Some(body) => {
                body.keys_are_unique();
            },
            None => {},
        }
        section_keys_are_unique(&self.footer);
    }

    /// Create a new empty message.
    pub fn new() -> (message: Self)
        ensures
            message@ == MessageModel::empty(),
    {
        Message {
            header: None,
            delivery_annotations: None,
            message_annotations: None,
            properties: None,
            application_properties: None,
            body: None,
            footer: None,
        }
    }

    /// Create a new message builder.
    pub fn builder() -> (builder: MessageBuilder)
        ensures
            builder@ == MessageModel::empty(),
    {
        MessageBuilder::new()
    }

    /// Create a simple text message: its body is the text as a string
    /// value, and it has no other section.
    pub fn text(text: &str) -> (message: Self)
        ensures
            message@ == (MessageModel {
                body: Some(BodyModel::Value(ValueModel::String(text@))),
                ..MessageModel::empty()
            }),
    {
        MessageBuilder::new().body(Body::Value(AmqpValue::String(text.to_owned()))).build()
    }

    /// Create a simple binary message: its body is the octets as data,
    /// and it has no other section.
    pub fn binary(data: Vec<u8>) -> (message: Self)
        ensures
            message@ == (MessageModel {
                body: Some(BodyModel::Data(data@)),
                ..MessageModel::empty()
            }),
    {
        MessageBuilder::new().body(Body::Data(data)).build()
    }

    /// Get the message body as text if it's a string value.
    pub fn body_as_text(&self) -> (text: Option<&str>)
        ensures
            match self@.body {
                Some(BodyModel::Value(ValueModel::String(s))) => text is Some && text->0@ == s,
                _ => text is None,
            },
    {
        match &self.body {
            Some(Body::Value(AmqpValue::String(s))) => Some(s.as_str()),
            _ => None,
        }
    }

    /// Get the message body as binary data.
    pub fn body_as_binary(&self) -> (data: Option<&[u8]>)
        ensures
            match self@.body {
                Some(BodyModel::Data(d)) => data is Some && data->0@ == d,
                _ => data is None,
            },
    {
        match &self.body {
            Some(Body::Data(data)) => Some(data.as_slice()),
            _ => None,
        }
    }

    /// Get the message ID as a string: the string itself where the id is
    /// a string, the hyphenated text where it is a UUID, nothing for any
    /// other id or where there is none.
    pub fn message_id_as_string(&self) -> (id: Option<String>)
        ensures
            match self@.properties_or_empty().message_id {
                Some(ValueModel::String(s)) => id is Some && id->0@ == s,
                Some(ValueModel::Uuid(bits)) => id is Some && id->0@ == uuid_hyphenated(bits),
                _ => id is None,
            },
    {
        match &self.properties {
            Some(props) => match &props.message_id {
                Some(AmqpValue::String(s)) => Some(s.clone()),
                Some(AmqpValue::Uuid(bits)) => Some(uuid_to_string(*bits)),
                _ => None,
            },
            None => None,
        }
    }

    /// The properties of the message, taken out of it; empty properties
    /// where it has none.
    fn take_properties(&mut self) -> (properties: Properties)
        ensures
            properties@ == old(self)@.properties_or_empty(),
            final(self)@ == (MessageModel { properties: None, ..old(self)@ }),
    {
        let mut taken: Option<Properties> = None;
        core::mem::swap(&mut self.properties, &mut taken);
        match taken {
            Some(props) => props,
            None => Properties::new(),
        }
    }

    /// Set a simple message ID (string).
    pub fn with_message_id(self, id: &str) -> (message: Self)
        ensures
            message@ == (MessageModel {
                properties: Some(
                    PropertiesModel {
                        message_id: Some(ValueModel::String(id@)),
                        ..self@.properties_or_empty()
                    },
                ),
                ..self@
            }),
    {
        let mut message = self;
        let mut props = message.take_properties();
        props.message_id = Some(AmqpValue::String(id.to_owned()));
        message.properties = Some(props);
        message
    }

    /// Set a UUID message ID, given as the UUID's 128 bits.
    pub fn with_uuid_message_id(self, id: u128) -> (message: Self)
        ensures
            message@ == (MessageModel {
                properties: Some(
                    PropertiesModel {
                        message_id: Some(ValueModel::Uuid(id)),
                        ..self@.properties_or_empty()
                    },
                ),
                ..self@
            }),
    {
        let mut message = self;
        let mut props = message.take_properties();
        props.message_id = Some(AmqpValue::Uuid(id));
        message.properties = Some(props);
        message
    }

    /// Set the subject.
    pub fn with_subject(self, subject: &str) -> (message: Self)
        ensures
            message@ == (MessageModel {
                properties: Some(
                    PropertiesModel { subject: Some(subject@), ..self@.properties_or_empty() },
                ),
                ..self@
            }),
    {
        let mut message = self;
        let mut props = message.take_properties();
        props.subject = Some(subject.to_owned());
        message.properties = Some(props);
        message
    }

    /// Set the content type.
    pub fn with_content_type(self, content_type: AmqpSymbol) -> (message: Self)
        ensures
            message@ == (MessageModel {
                properties: Some(
                    PropertiesModel {
                        content_type: Some(content_type@),
                        ..self@.properties_or_empty()
                    },
                ),
                ..self@
            }),
    {
        let mut message = self;
        let mut props = message.take_properties();
        props.content_type = Some(content_type);
        message.properties = Some(props);
        message
    }
}

impl From<String> for Message {
    fn from(text: String) -> (message: Self)
        ensures
            message@ == (MessageModel {
                body: Some(BodyModel::Value(ValueModel::String(text@))),
                ..MessageModel::empty()
            }),
    {
        MessageBuilder::new().body(Body::Value(AmqpValue::String(text))).build()
    }
}

impl vstd::std_specs::convert::FromSpecImpl<String> for Message {
    open spec fn obeys_from_spec() -> bool {
        false
    }

    open spec fn from_spec(text: String) -> Self {
        arbitrary()
    }
}

impl From<Vec<u8>> for Message {
    fn from(data: Vec<u8>) -> (message: Self)
        ensures
            message@ == (MessageModel {
                body: Some(BodyModel::Data(data@)),
                ..MessageModel::empty()
            }),
    {
        Message::binary(data)
    }
}

impl vstd::std_specs::convert::FromSpecImpl<Vec<u8>> for Message {
    open spec fn obeys_from_spec() -> bool {
        false
    }

    open spec fn from_spec(data: Vec<u8>) -> Self {
        arbitrary()
    }
}

} // verus!
