//! The binary codec: an encoder that writes values and messages as
//! octets, and a decoder that reads them back, each held to the wire
//! format that the `wire` module states.

use vstd::prelude::*;
use vstd::utf8::encode_utf8;
use bytes::BytesMut;
use crate::buffer::{
    buffer_capacity, buffer_from_slice, buffer_len, buffer_new, buffer_to_vec,
    buffer_with_capacity, get_u128, get_u16, get_u32, get_u64, get_u8, held, octet_at, put_slice,
    put_u128,
    put_u16, put_u32, put_u64, put_u8, take_octets,
};
use crate::error::AmqpError;
use crate::message::{
    body_models, lemma_multiple_model, Body, BodyModel, Header, Message, Properties,
};
use crate::message_wire::{
    body_fits, header_entries, header_from, header_of, header_section, lemma_parse_body_bounds,
    lemma_parse_part_bounds, lemma_parse_section_bounds, lemma_parts_fit, marker, message_fits,
    parse_body, parse_message, parse_part, parse_parts, parse_section, part_fits, parts_fit,
    properties_entries, properties_from, properties_of, properties_section, section_fits,
    starts_section, wire_body, wire_message, wire_part, wire_parts, wire_section,
    APPLICATION_PROPERTIES_CODE, DATA_CODE, DELIVERY_ANNOTATIONS_CODE, FOOTER_CODE, HEADER_CODE,
    MESSAGE_ANNOTATIONS_CODE, MULTIPLE_CODE, PROPERTIES_CODE, SEQUENCE_CODE, VALUE_CODE,
};
use crate::round_trip::decoded_keys_are_unique;
use crate::text::{char_from_u32, decimal, decimal_string, hex2, hex2_string, join, string_from_utf8};
use crate::types::{
    clone_octets, lemma_list_model, lookup, models_of, AmqpList, AmqpMap, AmqpSymbol, AmqpValue,
    ValueModel,
};
use crate::wire::{
    advanced, array_header, entries_fit, fits, is_type_code, items_fit, keys_unique,
    lemma_entries_fit, lemma_items_fit, lemma_parse_entries_bounds, lemma_parse_items_bounds,
    lemma_parse_symbol_bounds, lemma_parse_value_bounds, lemma_wire_items_len, list_header,
    map_header, parse_entries, parse_fixed, parse_items, parse_sized, parse_symbol, parse_value,
    payload, sized_header, sized_len, u32_from_be, wire_binary, wire_entries, wire_items,
    wire_string, wire_symbol, wire_value,
};

verus! {

/// The type codes of the wire format.
#[derive(Debug, Clone, Copy, PartialEq, Eq, Structural)]
pub enum TypeCode {
    Described,
    Null,
    Boolean,
    BooleanTrue,
    BooleanFalse,
    Ubyte,
    Ushort,
    Uint,
    Ulong,
    Byte,
    Short,
    Int,
    Long,
    Float,
    Double,
    Decimal32,
    Decimal64,
    Decimal128,
    Char,
    Timestamp,
    Uuid,
    Binary8,
    Binary32,
    String8,
    String32,
    Symbol8,
    Symbol32,
    List0,
    List8,
    List32,
    Map8,
    Map32,
    Array8,
    Array32,
}

impl TypeCode {
    /// The octet that stands for the type code on the wire.
    pub open spec fn octet(&self) -> u8 {
        match self {
            TypeCode::Described => 0x00,
            TypeCode::Null => 0x40,
            TypeCode::Boolean => 0x56,
            TypeCode::BooleanTrue => 0x41,
            TypeCode::BooleanFalse => 0x42,
            TypeCode::Ubyte => 0x50,
            TypeCode::Ushort => 0x60,
            TypeCode::Uint => 0x70,
            TypeCode::Ulong => 0x80,
            TypeCode::Byte => 0x51,
            TypeCode::Short => 0x61,
            TypeCode::Int => 0x71,
            TypeCode::Long => 0x81,
            TypeCode::Float => 0x72,
            TypeCode::Double => 0x82,
            TypeCode::Decimal32 => 0x74,
            TypeCode::Decimal64 => 0x84,
            TypeCode::Decimal128 => 0x94,
            TypeCode::Char => 0x73,
            TypeCode::Timestamp => 0x83,
            TypeCode::Uuid => 0x98,
            TypeCode::Binary8 => 0xa0,
            TypeCode::Binary32 => 0xb0,
            TypeCode::String8 => 0xa1,
            TypeCode::String32 => 0xb1,
            TypeCode::Symbol8 => 0xa3,
            TypeCode::Symbol32 => 0xb3,
            TypeCode::List0 => 0x45,
            TypeCode::List8 => 0xc0,
            TypeCode::List32 => 0xd0,
            TypeCode::Map8 => 0xc1,
            TypeCode::Map32 => 0xd1,
            TypeCode::Array8 => 0xe0,
            TypeCode::Array32 => 0xf0,
        }
    }

    /// The octet that stands for the type code on the wire.
    pub fn code(&self) -> (octet: u8)
        ensures
            octet == self.octet(),
    {
        match self {
            TypeCode::Described => 0x00,
            TypeCode::Null => 0x40,
            TypeCode::Boolean => 0x56,
            TypeCode::BooleanTrue => 0x41,
            TypeCode::BooleanFalse => 0x42,
            TypeCode::Ubyte => 0x50,
            TypeCode::Ushort => 0x60,
            TypeCode::Uint => 0x70,
            TypeCode::Ulong => 0x80,
            TypeCode::Byte => 0x51,
            TypeCode::Short => 0x61,
            TypeCode::Int => 0x71,
            TypeCode::Long => 0x81,
            TypeCode::Float => 0x72,
            TypeCode::Double => 0x82,
            TypeCode::Decimal32 => 0x74,
            TypeCode::Decimal64 => 0x84,
            TypeCode::Decimal128 => 0x94,
            TypeCode::Char => 0x73,
            TypeCode::Timestamp => 0x83,
            TypeCode::Uuid => 0x98,
            TypeCode::Binary8 => 0xa0,
            TypeCode::Binary32 => 0xb0,
            TypeCode::String8 => 0xa1,
            TypeCode::String32 => 0xb1,
            TypeCode::Symbol8 => 0xa3,
            TypeCode::Symbol32 => 0xb3,
            TypeCode::List0 => 0x45,
            TypeCode::List8 => 0xc0,
            TypeCode::List32 => 0xd0,
            TypeCode::Map8 => 0xc1,
            TypeCode::Map32 => 0xd1,
            TypeCode::Array8 => 0xe0,
            TypeCode::Array32 => 0xf0,
        }
    }
}

/// Writes values as octets into a buffer that grows.
pub struct Encoder {
    buffer: BytesMut,
}

impl View for Encoder {
    type V = Seq<u8>;

    /// The octets written so far.
    closed spec fn view(&self) -> Seq<u8> {
        held(self.buffer)
    }
}

impl Encoder {
    /// Create a new encoder, with nothing written.
    pub fn new() -> (encoder: Self)
        ensures
            encoder@ == Seq::<u8>::empty(),
    {
        Encoder { buffer: buffer_new() }
    }

    /// Create a new encoder with room set aside for `capacity` octets,
    /// where an allocation can be that large; else with none set aside.
    pub fn with_capacity(capacity: usize) -> (encoder: Self)
        ensures
            encoder@ == Seq::<u8>::empty(),
    {
        if capacity <= isize::MAX as usize {
            Encoder { buffer: buffer_with_capacity(capacity) }
        } else {
            Encoder::new()
        }
    }

    /// The number of octets written so far.
    pub fn len(&self) -> (len: usize)
        ensures
            len == self@.len(),
    {
        buffer_len(&self.buffer)
    }

    /// The number of octets the encoder can hold before it allocates
    /// again: at least as many as are written. How many more lies with
    /// the allocator.
    pub fn capacity(&self) -> (capacity: usize)
        ensures
            capacity >= self@.len(),
    {
        buffer_capacity(&self.buffer)
    }

    /// Get the encoded data.
    pub fn finish(self) -> (data: Vec<u8>)
        ensures
            data@ == self@,
    {
        buffer_to_vec(&self.buffer)
    }

    /// Encode null.
    pub fn encode_null(&mut self) -> (result: Result<(), AmqpError>)
        ensures
            result is Ok,
            final(self)@ == old(self)@ + wire_value(ValueModel::Null),
    {
        put_u8(&mut self.buffer, TypeCode::Null.code());
        assert(self@ =~= old(self)@ + wire_value(ValueModel::Null));
        Ok(())
    }

    /// Encode boolean.
    pub fn encode_boolean(&mut self, value: bool) -> (result: Result<(), AmqpError>)
        ensures
            result is Ok,
            final(self)@ == old(self)@ + wire_value(ValueModel::Boolean(value)),
    {
        if value {
            put_u8(&mut self.buffer, TypeCode::BooleanTrue.code());
        } else {
            put_u8(&mut self.buffer, TypeCode::BooleanFalse.code());
        }
        assert(self@ =~= old(self)@ + wire_value(ValueModel::Boolean(value)));
        Ok(())
    }

    /// Encode ubyte.
    pub fn encode_ubyte(&mut self, value: u8) -> (result: Result<(), AmqpError>)
        ensures
            result is Ok,
            final(self)@ == old(self)@ + wire_value(ValueModel::Ubyte(value)),
    {
        put_u8(&mut self.buffer, TypeCode::Ubyte.code());
        put_u8(&mut self.buffer, value);
        assert(self@ =~= old(self)@ + wire_value(ValueModel::Ubyte(value)));
        Ok(())
    }

    /// Encode byte.
    pub fn encode_byte(&mut self, value: i8) -> (result: Result<(), AmqpError>)
        ensures
            result is Ok,
            final(self)@ == old(self)@ + wire_value(ValueModel::Byte(value)),
    {
        put_u8(&mut self.buffer, TypeCode::Byte.code());
        put_u8(&mut self.buffer, value as u8);
        assert(self@ =~= old(self)@ + wire_value(ValueModel::Byte(value)));
        Ok(())
    }

    /// Encode ushort.
    pub fn encode_ushort(&mut self, value: u16) -> (result: Result<(), AmqpError>)
        ensures
            result is Ok,
            final(self)@ == old(self)@ + wire_value(ValueModel::Ushort(value)),
    {
        put_u8(&mut self.buffer, TypeCode::Ushort.code());
        put_u16(&mut self.buffer, value);
        assert(self@ =~= old(self)@ + wire_value(ValueModel::Ushort(value)));
        Ok(())
    }

    /// Encode uint.
    pub fn encode_uint(&mut self, value: u32) -> (result: Result<(), AmqpError>)
        ensures
            result is Ok,
            final(self)@ == old(self)@ + wire_value(ValueModel::Uint(value)),
    {
        put_u8(&mut self.buffer, TypeCode::Uint.code());
        put_u32(&mut self.buffer, value);
        assert(self@ =~= old(self)@ + wire_value(ValueModel::Uint(value)));
        Ok(())
    }

    /// Encode ulong.
    pub fn encode_ulong(&mut self, value: u64) -> (result: Result<(), AmqpError>)
        ensures
            result is Ok,
            final(self)@ == old(self)@ + wire_value(ValueModel::Ulong(value)),
    {
        put_u8(&mut self.buffer, TypeCode::Ulong.code());
        put_u64(&mut self.buffer, value);
        assert(self@ =~= old(self)@ + wire_value(ValueModel::Ulong(value)));
        Ok(())
    }

    /// Encode short.
    pub fn encode_short(&mut self, value: i16) -> (result: Result<(), AmqpError>)
        ensures
            result is Ok,
            final(self)@ == old(self)@ + wire_value(ValueModel::Short(value)),
    {
        put_u8(&mut self.buffer, TypeCode::Short.code());
        put_u16(&mut self.buffer, value as u16);
        assert(self@ =~= old(self)@ + wire_value(ValueModel::Short(value)));
        Ok(())
    }

    /// Encode int.
    pub fn encode_int(&mut self, value: i32) -> (result: Result<(), AmqpError>)
        ensures
            result is Ok,
            final(self)@ == old(self)@ + wire_value(ValueModel::Int(value)),
    {
        put_u8(&mut self.buffer, TypeCode::Int.code());
        put_u32(&mut self.buffer, value as u32);
        assert(self@ =~= old(self)@ + wire_value(ValueModel::Int(value)));
        Ok(())
    }

    /// Encode long.
    pub fn encode_long(&mut self, value: i64) -> (result: Result<(), AmqpError>)
        ensures
            result is Ok,
            final(self)@ == old(self)@ + wire_value(ValueModel::Long(value)),
    {
        put_u8(&mut self.buffer, TypeCode::Long.code());
        put_u64(&mut self.buffer, value as u64);
        assert(self@ =~= old(self)@ + wire_value(ValueModel::Long(value)));
        Ok(())
    }

    /// Encode a float, given as its bit pattern.
    pub fn encode_float(&mut self, value: u32) -> (result: Result<(), AmqpError>)
        ensures
            result is Ok,
            final(self)@ == old(self)@ + wire_value(ValueModel::Float(value)),
    {
        put_u8(&mut self.buffer, TypeCode::Float.code());
        put_u32(&mut self.buffer, value);
        assert(self@ =~= old(self)@ + wire_value(ValueModel::Float(value)));
        Ok(())
    }

    /// Encode a double, given as its bit pattern.
    pub fn encode_double(&mut self, value: u64) -> (result: Result<(), AmqpError>)
        ensures
            result is Ok,
            final(self)@ == old(self)@ + wire_value(ValueModel::Double(value)),
    {
        put_u8(&mut self.buffer, TypeCode::Double.code());
        put_u64(&mut self.buffer, value);
        assert(self@ =~= old(self)@ + wire_value(ValueModel::Double(value)));
        Ok(())
    }

    /// Encode char, as its scalar value in four octets.
    pub fn encode_char(&mut self, value: char) -> (result: Result<(), AmqpError>)
        ensures
            result is Ok,
            final(self)@ == old(self)@ + wire_value(ValueModel::Char(value)),
    {
        put_u8(&mut self.buffer, TypeCode::Char.code());
        put_u32(&mut self.buffer, value as u32);
        assert(self@ =~= old(self)@ + wire_value(ValueModel::Char(value)));
        Ok(())
    }

    /// Encode timestamp.
    pub fn encode_timestamp(&mut self, value: i64) -> (result: Result<(), AmqpError>)
        ensures
            result is Ok,
            final(self)@ == old(self)@ + wire_value(ValueModel::Timestamp(value)),
    {
        put_u8(&mut self.buffer, TypeCode::Timestamp.code());
        put_u64(&mut self.buffer, value as u64);
        assert(self@ =~= old(self)@ + wire_value(ValueModel::Timestamp(value)));
        Ok(())
    }

    /// Encode a UUID, given as its 128 bits.
    pub fn encode_uuid(&mut self, value: u128) -> (result: Result<(), AmqpError>)
        ensures
            result is Ok,
            final(self)@ == old(self)@ + wire_value(ValueModel::Uuid(value)),
    {
        put_u8(&mut self.buffer, TypeCode::Uuid.code());
        put_u128(&mut self.buffer, value);
        assert(self@ =~= old(self)@ + wire_value(ValueModel::Uuid(value)));
        Ok(())
    }

    /// Encode decimal32.
    fn encode_decimal32(&mut self, value: u32) -> (result: Result<(), AmqpError>)
        ensures
            result is Ok,
            final(self)@ == old(self)@ + wire_value(ValueModel::Decimal32(value)),
    {
        put_u8(&mut self.buffer, TypeCode::Decimal32.code());
        put_u32(&mut self.buffer, value);
        assert(self@ =~= old(self)@ + wire_value(ValueModel::Decimal32(value)));
        Ok(())
    }

    /// Encode decimal64.
    fn encode_decimal64(&mut self, value: u64) -> (result: Result<(), AmqpError>)
        ensures
            result is Ok,
            final(self)@ == old(self)@ + wire_value(ValueModel::Decimal64(value)),
    {
        put_u8(&mut self.buffer, TypeCode::Decimal64.code());
        put_u64(&mut self.buffer, value);
        assert(self@ =~= old(self)@ + wire_value(ValueModel::Decimal64(value)));
        Ok(())
    }

    /// Encode decimal128.
    fn encode_decimal128(&mut self, value: u128) -> (result: Result<(), AmqpError>)
        ensures
            result is Ok,
            final(self)@ == old(self)@ + wire_value(ValueModel::Decimal128(value)),
    {
        put_u8(&mut self.buffer, TypeCode::Decimal128.code());
        put_u128(&mut self.buffer, value);
        assert(self@ =~= old(self)@ + wire_value(ValueModel::Decimal128(value)));
        Ok(())
    }

    /// Writes the type code and length of a payload of `len` octets, in
    /// the shortest form that holds the length, and then the payload.
    fn put_sized(&mut self, code8: u8, code32: u8, data: &[u8]) -> (result: Result<(), AmqpError>)
        ensures
            result is Ok <==> data@.len() <= u32::MAX,
            result is Ok ==> final(self)@ == old(self)@ + sized_header(
                code8,
                code32,
                data@.len(),
            ) + data@,
            result is Err ==> result->Err_0 is Encoding && final(self)@ == old(self)@,
    {
        let len = data.len();
        if len <= 255 {
            put_u8(&mut self.buffer, code8);
            put_u8(&mut self.buffer, len as u8);
        } else if len <= 0xffff_ffff {
            put_u8(&mut self.buffer, code32);
            put_u32(&mut self.buffer, len as u32);
        } else {
            return Err(AmqpError::encoding("Length does not fit in 32 bits"));
        }
        put_slice(&mut self.buffer, data);
        assert(self@ =~= old(self)@ + sized_header(code8, code32, data@.len()) + data@);
        Ok(())
    }

    /// Encode binary data: with a one-octet length up to 255 octets, with
    /// a four-octet length beyond. Data too long for four octets of
    /// length is refused and nothing is written.
    pub fn encode_binary(&mut self, data: &[u8]) -> (result: Result<(), AmqpError>)
        ensures
            result is Ok <==> data@.len() <= u32::MAX,
            result is Ok ==> final(self)@ == old(self)@ + wire_binary(data@),
            result is Err ==> result->Err_0 is Encoding && final(self)@ == old(self)@,
    {
        let result = self.put_sized(TypeCode::Binary8.code(), TypeCode::Binary32.code(), data);
        assert(result is Ok ==> self@ =~= old(self)@ + wire_binary(data@));
        result
    }

    /// Encode string, as its UTF-8 octets behind their length.
    pub fn encode_string(&mut self, value: &str) -> (result: Result<(), AmqpError>)
        ensures
            result is Ok <==> encode_utf8(value@).len() <= u32::MAX,
            result is Ok ==> final(self)@ == old(self)@ + wire_string(value@),
            result is Err ==> result->Err_0 is Encoding && final(self)@ == old(self)@,
    {
        let bytes = value.as_bytes();
        let result = self.put_sized(TypeCode::String8.code(), TypeCode::String32.code(), bytes);
        assert(result is Ok ==> self@ =~= old(self)@ + wire_string(value@));
        result
    }

    /// Encode symbol, as its UTF-8 octets behind their length.
    pub fn encode_symbol(&mut self, symbol: &AmqpSymbol) -> (result: Result<(), AmqpError>)
        ensures
            result is Ok <==> encode_utf8(symbol@).len() <= u32::MAX,
            result is Ok ==> final(self)@ == old(self)@ + wire_symbol(symbol@),
            result is Err ==> result->Err_0 is Encoding && final(self)@ == old(self)@,
    {
        let bytes = symbol.as_str().as_bytes();
        let result = self.put_sized(TypeCode::Symbol8.code(), TypeCode::Symbol32.code(), bytes);
        assert(result is Ok ==> self@ =~= old(self)@ + wire_symbol(symbol@));
        result
    }

    /// Encode an AMQP value. The value is written whole where every
    /// length in it fits its length prefix; where one does not, encoding
    /// stops with an error.
    pub fn encode_value(&mut self, value: &AmqpValue) -> (result: Result<(), AmqpError>)
        ensures
            result is Ok <==> fits(value@),
            result is Ok ==> final(self)@ == old(self)@ + wire_value(value@),
            result is Err ==> result->Err_0 is Encoding,
        decreases value,
    {
        match value {
            AmqpValue::Null => self.encode_null(),
            AmqpValue::Boolean(b) => self.encode_boolean(*b),
            AmqpValue::Ubyte(n) => self.encode_ubyte(*n),
            AmqpValue::Ushort(n) => self.encode_ushort(*n),
            AmqpValue::Uint(n) => self.encode_uint(*n),
            AmqpValue::Ulong(n) => self.encode_ulong(*n),
            AmqpValue::Byte(n) => self.encode_byte(*n),
            AmqpValue::Short(n) => self.encode_short(*n),
            AmqpValue::Int(n) => self.encode_int(*n),
            AmqpValue::Long(n) => self.encode_long(*n),
            AmqpValue::Float(f) => self.encode_float(*f),
            AmqpValue::Double(f) => self.encode_double(*f),
            AmqpValue::Decimal32(n) => self.encode_decimal32(*n),
            AmqpValue::Decimal64(n) => self.encode_decimal64(*n),
            AmqpValue::Decimal128(n) => self.encode_decimal128(*n),
            AmqpValue::Char(c) => self.encode_char(*c),
            AmqpValue::Timestamp(t) => self.encode_timestamp(*t),
            AmqpValue::Uuid(u) => self.encode_uuid(*u),
            AmqpValue::Binary(data) => self.encode_binary(data.as_slice()),
            AmqpValue::String(s) => self.encode_string(s.as_str()),
            AmqpValue::Symbol(s) => self.encode_symbol(s),
            AmqpValue::List(list) => {
                proof {
                    lemma_list_model(*list);
                }
                self.encode_list(list)
            },
            AmqpValue::Mapping(map) => self.encode_map(map),
            AmqpValue::Array(array) => {
                proof {
                    lemma_list_model(*array);
                }
                self.encode_array(array)
            },
        }
    }

    /// Writes the items one after the other.
    fn encode_items(&mut self, items: &Vec<AmqpValue>) -> (result: Result<(), AmqpError>)
        ensures
            result is Ok <==> items_fit(models_of(items@), items@.len()),
            result is Ok ==> final(self)@ == old(self)@ + wire_items(
                models_of(items@),
                items@.len(),
            ),
            result is Err ==> result->Err_0 is Encoding,
        decreases items, 0nat,
    {
        let ghost models = models_of(items@);
        let ghost start = self@;
        let mut i: usize = 0;
        while i < items.len()
            invariant
                i <= items@.len(),
                models == models_of(items@),
                self@ == start + wire_items(models, i as nat),
                items_fit(models, i as nat),
            decreases items@.len() - i,
        {
            match self.encode_value(&items[i]) {
                Ok(()) => {},
                Err(e) => {
                    proof {
                        lemma_items_fit(models, items@.len() as nat);
                        assert(!fits(models[i as int]));
                    }
                    return Err(e);
                },
            }
            proof {
                assert(models[i as int] == items@[i as int]@);
                assert(self@ =~= start + wire_items(models, (i + 1) as nat));
            }
            i = i + 1;
        }
        Ok(())
    }

    /// Encode a list: its count, then its items. The empty list is the
    /// one octet `0x45`, with no count behind it.
    pub fn encode_list(&mut self, list: &AmqpList) -> (result: Result<(), AmqpError>)
        ensures
            result is Ok <==> fits(ValueModel::List(models_of(list@))),
            result is Ok ==> final(self)@ == old(self)@ + wire_value(
                ValueModel::List(models_of(list@)),
            ),
            list@.len() == 0 ==> result is Ok && final(self)@ == old(self)@.push(0x45u8),
            result is Err ==> result->Err_0 is Encoding,
        decreases list, 1nat,
    {
        let count = list.len();
        if count == 0 {
            put_u8(&mut self.buffer, TypeCode::List0.code());
        } else if count <= 255 {
            put_u8(&mut self.buffer, TypeCode::List8.code());
            put_u8(&mut self.buffer, count as u8);
        } else if count <= 0xffff_ffff {
            put_u8(&mut self.buffer, TypeCode::List32.code());
            put_u32(&mut self.buffer, count as u32);
        } else {
            return Err(AmqpError::encoding("List count does not fit in 32 bits"));
        }
        assert(self@ =~= old(self)@ + list_header(count as nat));
        let result = self.encode_items(list);
        assert(result is Ok ==> self@ =~= old(self)@ + wire_value(
            ValueModel::List(models_of(list@)),
        ));
        result
    }

    /// Encode a map: its count, then each key as a symbol and its value.
    fn encode_map(&mut self, map: &AmqpMap) -> (result: Result<(), AmqpError>)
        ensures
            result is Ok <==> fits(ValueModel::Mapping(map@)),
            result is Ok ==> final(self)@ == old(self)@ + wire_value(ValueModel::Mapping(map@)),
            result is Err ==> result->Err_0 is Encoding,
        decreases map,
    {
        let count = map.len();
        if count <= 127 {
            put_u8(&mut self.buffer, TypeCode::Map8.code());
            put_u8(&mut self.buffer, count as u8);
        } else if count <= 0xffff_ffff {
            put_u8(&mut self.buffer, TypeCode::Map32.code());
            put_u32(&mut self.buffer, count as u32);
        } else {
            return Err(AmqpError::encoding("Map count does not fit in 32 bits"));
        }
        let ghost entries = map@;
        let ghost start = self@;
        assert(start =~= old(self)@ + map_header(count as nat));
        let mut i: usize = 0;
        while i < count
            invariant
                i <= count,
                count == map@.len(),
                entries == map@,
                self@ == start + wire_entries(entries, i as nat),
                entries_fit(entries, i as nat),
            decreases count - i,
        {
            match self.encode_symbol(map.key_at(i)) {
                Ok(()) => {},
                Err(e) => {
                    proof {
                        lemma_entries_fit(entries, count as nat);
                    }
                    return Err(e);
                },
            }
            match self.encode_value(map.value_at(i)) {
                Ok(()) => {},
                Err(e) => {
                    proof {
                        lemma_entries_fit(entries, count as nat);
                    }
                    return Err(e);
                },
            }
            proof {
                assert(self@ =~= start + wire_entries(entries, (i + 1) as nat));
            }
            i = i + 1;
        }
        assert(self@ =~= old(self)@ + wire_value(ValueModel::Mapping(map@)));
        Ok(())
    }

    /// Encode array: the size in octets of its items' encodings, their
    /// count, then the items.
    pub fn encode_array(&mut self, array: &Vec<AmqpValue>) -> (result: Result<(), AmqpError>)
        ensures
            result is Ok <==> fits(ValueModel::Array(models_of(array@))),
            result is Ok ==> final(self)@ == old(self)@ + wire_value(
                ValueModel::Array(models_of(array@)),
            ),
            result is Err ==> result->Err_0 is Encoding,
        decreases array, 1nat,
    {
        let ghost models = models_of(array@);
        let mut temp_encoder = Encoder::new();
        match temp_encoder.encode_items(array) {
            Ok(()) => {},
            Err(e) => {
                return Err(e);
            },
        }
        let encoded_data = temp_encoder.finish();
        let size = encoded_data.len();
        proof {
            lemma_wire_items_len(models, array@.len() as nat);
            assert(encoded_data@ =~= wire_items(models, array@.len() as nat));
        }
        if size <= 255 {
            put_u8(&mut self.buffer, TypeCode::Array8.code());
            put_u8(&mut self.buffer, size as u8);
            put_u8(&mut self.buffer, array.len() as u8);
        } else if size <= 0xffff_ffff {
            put_u8(&mut self.buffer, TypeCode::Array32.code());
            put_u32(&mut self.buffer, size as u32);
            put_u32(&mut self.buffer, array.len() as u32);
        } else {
            return Err(AmqpError::encoding("Array size does not fit in 32 bits"));
        }
        assert(self@ =~= old(self)@ + array_header(size as nat, array@.len() as nat));
        put_slice(&mut self.buffer, encoded_data.as_slice());
        assert(self@ =~= old(self)@ + wire_value(ValueModel::Array(models)));
        Ok(())
    }
}

impl Default for Encoder {
    fn default() -> (encoder: Self)
        ensures
            encoder@ == Seq::<u8>::empty(),
    {
        Encoder::new()
    }
}

/// What a decoding step owes: where `parsed` is a value that takes `used`
/// octets, `header` of which were taken before the step, the step gives
/// that value and leaves what follows it; where `parsed` is `None`, the
/// step fails with a decoding error.
pub open spec fn agrees(
    parsed: Option<(ValueModel, int)>,
    header: int,
    before: Seq<u8>,
    after: Seq<u8>,
    result: Result<AmqpValue, AmqpError>,
) -> bool {
    match parsed {
        Some((model, used)) => result is Ok && result->Ok_0@ == model && after == before.skip(
            used - header,
        ),
        None => result is Err && result->Err_0 is Decoding,
    }
}

/// Reads values back from octets, from the first to the last.
pub struct Decoder {
    buffer: BytesMut,
}

impl View for Decoder {
    type V = Seq<u8>;

    /// The octets not yet read.
    closed spec fn view(&self) -> Seq<u8> {
        held(self.buffer)
    }
}

impl Decoder {
    /// A decoder that will read `data`.
    pub fn new(data: Vec<u8>) -> (decoder: Self)
        ensures
            decoder@ == data@,
    {
        Decoder { buffer: buffer_from_slice(data.as_slice()) }
    }

    /// Check if there's more data to decode.
    pub fn has_remaining(&self) -> (more: bool)
        ensures
            more == (self@.len() > 0),
    {
        buffer_len(&self.buffer) > 0
    }

    /// Get the number of octets not yet read.
    pub fn remaining(&self) -> (len: usize)
        ensures
            len == self@.len(),
    {
        buffer_len(&self.buffer)
    }

    /// Decode an AMQP value: reads exactly the octets of the value at the
    /// start of what remains. Where what remains does not start with a
    /// whole value (nothing is left, the value is cut short, a text is no
    /// UTF-8, a character is no Unicode scalar value, or the type code is
    /// unknown), decoding fails with a decoding error; for an unknown type
    /// code the error names the code. No map in what is decoded has a key
    /// twice.
    pub fn decode_value(&mut self) -> (result: Result<AmqpValue, AmqpError>)
        ensures
            agrees(parse_value(old(self)@), 0, old(self)@, final(self)@, result),
            result is Ok ==> keys_unique(result->Ok_0@),
            old(self)@.len() > 0 && !is_type_code(old(self)@[0]) ==> result is Err
                && result->Err_0->Decoding_0@ == "Unknown type code: 0x"@ + hex2(old(self)@[0]),
        decreases old(self)@.len(), 0nat,
    {
        if buffer_len(&self.buffer) == 0 {
            return Err(AmqpError::decoding("Unexpected end of data"));
        }
        let ghost start = self@;
        let type_code = get_u8(&mut self.buffer);
        let ghost body = self@;
        proof {
            lemma_parse_value_bounds(start);
            decoded_keys_are_unique(start);
        }
        let result = if type_code == TypeCode::Binary8.code() {
            self.decode_binary8()
        } else if type_code == TypeCode::Binary32.code() {
            self.decode_binary32()
        } else if type_code == TypeCode::String8.code() {
            self.decode_string8()
        } else if type_code == TypeCode::String32.code() {
            self.decode_string32()
        } else if type_code == TypeCode::Symbol8.code() {
            self.decode_symbol8()
        } else if type_code == TypeCode::Symbol32.code() {
            self.decode_symbol32()
        } else if type_code == TypeCode::List0.code() {
            let items: Vec<AmqpValue> = Vec::new();
            proof {
                lemma_list_model(items);
                assert(models_of(items@) =~= Seq::<ValueModel>::empty());
            }
            Ok(AmqpValue::List(items))
        } else if type_code == TypeCode::List8.code() {
            self.decode_list(false)
        } else if type_code == TypeCode::List32.code() {
            self.decode_list(true)
        } else if type_code == TypeCode::Map8.code() {
            self.decode_map(false)
        } else if type_code == TypeCode::Map32.code() {
            self.decode_map(true)
        } else if type_code == TypeCode::Array8.code() {
            self.decode_array8()
        } else if type_code == TypeCode::Array32.code() {
            self.decode_array32()
        } else {
            self.decode_fixed(type_code)
        };
        proof {
            assert(seq![type_code] + body =~= start);
            match parse_value(start) {
                Some((model, used)) => {
                    assert(body.skip(used - 1) =~= start.skip(used));
                },
                None => {},
            }
        }
        result
    }

    /// Reads a count of one octet (`wide` false) or four, checking that
    /// it is there.
    fn decode_count(&mut self, wide: bool) -> (count: Option<usize>)
        ensures
            count is Some <==> old(self)@.len() >= (if wide {
                4int
            } else {
                1int
            }),
            count is Some ==> count->0 == (if wide {
                u32_from_be(old(self)@) as int
            } else {
                old(self)@[0] as int
            }) && final(self)@ == old(self)@.skip(
                if wide {
                    4int
                } else {
                    1int
                },
            ),
            count is None ==> final(self)@ == old(self)@,
    {
        if wide {
            if buffer_len(&self.buffer) < 4 {
                return None;
            }
            Some(get_u32(&mut self.buffer) as usize)
        } else {
            if buffer_len(&self.buffer) < 1 {
                return None;
            }
            Some(get_u8(&mut self.buffer) as usize)
        }
    }

    /// Reads a list after its type code: its count, then its items.
    fn decode_list(&mut self, wide: bool) -> (result: Result<AmqpValue, AmqpError>)
        ensures
            agrees(
                parse_value(
                    seq![
                        if wide {
                            0xd0u8
                        } else {
                            0xc0u8
                        },
                    ] + old(self)@,
                ),
                1,
                old(self)@,
                final(self)@,
                result,
            ),
        decreases old(self)@.len(), 2nat,
    {
        let ghost body = self@;
        let ghost code = if wide {
            0xd0u8
        } else {
            0xc0u8
        };
        let ghost width: int = if wide {
            4
        } else {
            1
        };
        proof {
            assert((seq![code] + body).skip(1) =~= body);
        }
        let count = match self.decode_count(wide) {
            Some(count) => count,
            None => {
                return Err(AmqpError::decoding("Insufficient data for list count"));
            },
        };
        match self.decode_items(count) {
            Ok(items) => {
                proof {
                    lemma_list_model(items);
                    lemma_parse_items_bounds(body.skip(width), count as nat, Seq::empty());
                    let used = parse_items(body.skip(width), count as nat, Seq::empty()).unwrap().1;
                    assert(self@ =~= body.skip(width + used));
                }
                Ok(AmqpValue::List(items))
            },
            Err(e) => Err(e),
        }
    }

    /// Reads a map after its type code: its count, then its entries.
    fn decode_map(&mut self, wide: bool) -> (result: Result<AmqpValue, AmqpError>)
        ensures
            agrees(
                parse_value(
                    seq![
                        if wide {
                            0xd1u8
                        } else {
                            0xc1u8
                        },
                    ] + old(self)@,
                ),
                1,
                old(self)@,
                final(self)@,
                result,
            ),
        decreases old(self)@.len(), 2nat,
    {
        let ghost body = self@;
        let ghost code = if wide {
            0xd1u8
        } else {
            0xc1u8
        };
        let ghost width: int = if wide {
            4
        } else {
            1
        };
        proof {
            assert((seq![code] + body).skip(1) =~= body);
        }
        let count = match self.decode_count(wide) {
            Some(count) => count,
            None => {
                return Err(AmqpError::decoding("Insufficient data for map count"));
            },
        };
        match self.decode_entries(count) {
            Ok(map) => {
                proof {
                    lemma_parse_entries_bounds(body.skip(width), count as nat, Seq::empty());
                    let used = parse_entries(
                        body.skip(width),
                        count as nat,
                        Seq::empty(),
                    ).unwrap().1;
                    assert(self@ =~= body.skip(width + used));
                }
                Ok(AmqpValue::Mapping(map))
            },
            Err(e) => Err(e),
        }
    }

    /// Reads the payload of a value of fixed width after its type code;
    /// any code that is none of these is unknown.
    fn decode_fixed(&mut self, type_code: u8) -> (result: Result<AmqpValue, AmqpError>)
        ensures
            agrees(parse_fixed(type_code, old(self)@), 1, old(self)@, final(self)@, result),
            !is_type_code(type_code) ==> result is Err && result->Err_0->Decoding_0@
                == "Unknown type code: 0x"@ + hex2(type_code),
    {
        proof {
            assert(self@.skip(0) =~= self@);
        }
        if type_code == TypeCode::Null.code() {
            Ok(AmqpValue::Null)
        } else if type_code == TypeCode::BooleanTrue.code() {
            Ok(AmqpValue::Boolean(true))
        } else if type_code == TypeCode::BooleanFalse.code() {
            Ok(AmqpValue::Boolean(false))
        } else if type_code == TypeCode::Boolean.code() {
            self.decode_boolean()
        } else if type_code == TypeCode::Ubyte.code() {
            self.decode_ubyte()
        } else if type_code == TypeCode::Ushort.code() {
            self.decode_ushort()
        } else if type_code == TypeCode::Uint.code() {
            self.decode_uint()
        } else if type_code == TypeCode::Ulong.code() {
            self.decode_ulong()
        } else if type_code == TypeCode::Byte.code() {
            self.decode_byte()
        } else if type_code == TypeCode::Short.code() {
            self.decode_short()
        } else if type_code == TypeCode::Int.code() {
            self.decode_int()
        } else if type_code == TypeCode::Long.code() {
            self.decode_long()
        } else if type_code == TypeCode::Float.code() {
            self.decode_float()
        } else if type_code == TypeCode::Double.code() {
            self.decode_double()
        } else if type_code == TypeCode::Decimal32.code() {
            self.decode_decimal32()
        } else if type_code == TypeCode::Decimal64.code() {
            self.decode_decimal64()
        } else if type_code == TypeCode::Decimal128.code() {
            self.decode_decimal128()
        } else if type_code == TypeCode::Char.code() {
            self.decode_char()
        } else if type_code == TypeCode::Timestamp.code() {
            self.decode_timestamp()
        } else if type_code == TypeCode::Uuid.code() {
            self.decode_uuid()
        } else {
            let code_text = hex2_string(type_code);
            let text = join("Unknown type code: 0x", code_text.as_str());
            Err(AmqpError::decoding(text.as_str()))
        }
    }

    fn decode_boolean(&mut self) -> (result: Result<AmqpValue, AmqpError>)
        ensures
            agrees(parse_fixed(0x56, old(self)@), 1, old(self)@, final(self)@, result),
    {
        if buffer_len(&self.buffer) < 1 {
            return Err(AmqpError::decoding("Insufficient data for boolean"));
        }
        let octet = get_u8(&mut self.buffer);
        if octet == 0 {
            Ok(AmqpValue::Boolean(false))
        } else if octet == 1 {
            Ok(AmqpValue::Boolean(true))
        } else {
            Err(AmqpError::decoding("Invalid boolean value"))
        }
    }

    fn decode_ubyte(&mut self) -> (result: Result<AmqpValue, AmqpError>)
        ensures
            agrees(parse_fixed(0x50, old(self)@), 1, old(self)@, final(self)@, result),
    {
        if buffer_len(&self.buffer) < 1 {
            return Err(AmqpError::decoding("Insufficient data for ubyte"));
        }
        let raw = get_u8(&mut self.buffer);
        Ok(AmqpValue::Ubyte(raw))
    }

    fn decode_ushort(&mut self) -> (result: Result<AmqpValue, AmqpError>)
        ensures
            agrees(parse_fixed(0x60, old(self)@), 1, old(self)@, final(self)@, result),
    {
        if buffer_len(&self.buffer) < 2 {
            return Err(AmqpError::decoding("Insufficient data for ushort"));
        }
        let raw = get_u16(&mut self.buffer);
        Ok(AmqpValue::Ushort(raw))
    }

    fn decode_uint(&mut self) -> (result: Result<AmqpValue, AmqpError>)
        ensures
            agrees(parse_fixed(0x70, old(self)@), 1, old(self)@, final(self)@, result),
    {
        if buffer_len(&self.buffer) < 4 {
            return Err(AmqpError::decoding("Insufficient data for uint"));
        }
        let raw = get_u32(&mut self.buffer);
        Ok(AmqpValue::Uint(raw))
    }

    fn decode_ulong(&mut self) -> (result: Result<AmqpValue, AmqpError>)
        ensures
            agrees(parse_fixed(0x80, old(self)@), 1, old(self)@, final(self)@, result),
    {
        if buffer_len(&self.buffer) < 8 {
            return Err(AmqpError::decoding("Insufficient data for ulong"));
        }
        let raw = get_u64(&mut self.buffer);
        Ok(AmqpValue::Ulong(raw))
    }

    fn decode_byte(&mut self) -> (result: Result<AmqpValue, AmqpError>)
        ensures
            agrees(parse_fixed(0x51, old(self)@), 1, old(self)@, final(self)@, result),
    {
        if buffer_len(&self.buffer) < 1 {
            return Err(AmqpError::decoding("Insufficient data for byte"));
        }
        let raw = get_u8(&mut self.buffer);
        Ok(AmqpValue::Byte(raw as i8))
    }

    fn decode_short(&mut self) -> (result: Result<AmqpValue, AmqpError>)
        ensures
            agrees(parse_fixed(0x61, old(self)@), 1, old(self)@, final(self)@, result),
    {
        if buffer_len(&self.buffer) < 2 {
            return Err(AmqpError::decoding("Insufficient data for short"));
        }
        let raw = get_u16(&mut self.buffer);
        Ok(AmqpValue::Short(raw as i16))
    }

    fn decode_int(&mut self) -> (result: Result<AmqpValue, AmqpError>)
        ensures
            agrees(parse_fixed(0x71, old(self)@), 1, old(self)@, final(self)@, result),
    {
        if buffer_len(&self.buffer) < 4 {
            return Err(AmqpError::decoding("Insufficient data for int"));
        }
        let raw = get_u32(&mut self.buffer);
        Ok(AmqpValue::Int(raw as i32))
    }

    fn decode_long(&mut self) -> (result: Result<AmqpValue, AmqpError>)
        ensures
            agrees(parse_fixed(0x81, old(self)@), 1, old(self)@, final(self)@, result),
    {
        if buffer_len(&self.buffer) < 8 {
            return Err(AmqpError::decoding("Insufficient data for long"));
        }
        let raw = get_u64(&mut self.buffer);
        Ok(AmqpValue::Long(raw as i64))
    }

    fn decode_float(&mut self) -> (result: Result<AmqpValue, AmqpError>)
        ensures
            agrees(parse_fixed(0x72, old(self)@), 1, old(self)@, final(self)@, result),
    {
        if buffer_len(&self.buffer) < 4 {
            return Err(AmqpError::decoding("Insufficient data for float"));
        }
        let raw = get_u32(&mut self.buffer);
        Ok(AmqpValue::Float(raw))
    }

    fn decode_double(&mut self) -> (result: Result<AmqpValue, AmqpError>)
        ensures
            agrees(parse_fixed(0x82, old(self)@), 1, old(self)@, final(self)@, result),
    {
        if buffer_len(&self.buffer) < 8 {
            return Err(AmqpError::decoding("Insufficient data for double"));
        }
        let raw = get_u64(&mut self.buffer);
        Ok(AmqpValue::Double(raw))
    }

    fn decode_decimal32(&mut self) -> (result: Result<AmqpValue, AmqpError>)
        ensures
            agrees(parse_fixed(0x74, old(self)@), 1, old(self)@, final(self)@, result),
    {
        if buffer_len(&self.buffer) < 4 {
            return Err(AmqpError::decoding("Insufficient data for decimal32"));
        }
        let raw = get_u32(&mut self.buffer);
        Ok(AmqpValue::Decimal32(raw))
    }

    fn decode_decimal64(&mut self) -> (result: Result<AmqpValue, AmqpError>)
        ensures
            agrees(parse_fixed(0x84, old(self)@), 1, old(self)@, final(self)@, result),
    {
        if buffer_len(&self.buffer) < 8 {
            return Err(AmqpError::decoding("Insufficient data for decimal64"));
        }
        let raw = get_u64(&mut self.buffer);
        Ok(AmqpValue::Decimal64(raw))
    }

    fn decode_decimal128(&mut self) -> (result: Result<AmqpValue, AmqpError>)
        ensures
            agrees(parse_fixed(0x94, old(self)@), 1, old(self)@, final(self)@, result),
    {
        if buffer_len(&self.buffer) < 16 {
            return Err(AmqpError::decoding("Insufficient data for decimal128"));
        }
        let raw = get_u128(&mut self.buffer);
        Ok(AmqpValue::Decimal128(raw))
    }

    fn decode_timestamp(&mut self) -> (result: Result<AmqpValue, AmqpError>)
        ensures
            agrees(parse_fixed(0x83, old(self)@), 1, old(self)@, final(self)@, result),
    {
        if buffer_len(&self.buffer) < 8 {
            return Err(AmqpError::decoding("Insufficient data for timestamp"));
        }
        let raw = get_u64(&mut self.buffer);
        Ok(AmqpValue::Timestamp(raw as i64))
    }

    /// Decode a character from the four octets behind its type code. The
    /// number they hold must be a Unicode scalar value: a surrogate or a
    /// number above `0x10FFFF` is refused with a decoding error, and so
    /// are fewer than four octets.
    pub fn decode_char(&mut self) -> (result: Result<AmqpValue, AmqpError>)
        ensures
            agrees(parse_fixed(0x73, old(self)@), 1, old(self)@, final(self)@, result),
            result is Ok <==> old(self)@.len() >= 4 && vstd::utf8::is_scalar(u32_from_be(old(self)@)),
            result is Ok ==> result->Ok_0@ == ValueModel::Char(u32_from_be(old(self)@) as char)
                && final(self)@ == old(self)@.skip(4),
            result is Err ==> result->Err_0 is Decoding,
    {
        if buffer_len(&self.buffer) < 4 {
            return Err(AmqpError::decoding("Insufficient data for char"));
        }
        let code_point = get_u32(&mut self.buffer);
        match char_from_u32(code_point) {
            Some(c) => Ok(AmqpValue::Char(c)),
            None => Err(AmqpError::decoding("Invalid UTF-8 code point")),
        }
    }

    fn decode_uuid(&mut self) -> (result: Result<AmqpValue, AmqpError>)
        ensures
            agrees(parse_fixed(0x98, old(self)@), 1, old(self)@, final(self)@, result),
    {
        if buffer_len(&self.buffer) < 16 {
            return Err(AmqpError::decoding("Insufficient data for UUID"));
        }
        let uuid_bits = get_u128(&mut self.buffer);
        Ok(AmqpValue::Uuid(uuid_bits))
    }

    /// Reads a length of one octet (`wide` false) or four, checks it
    /// against what remains, and only then takes that many octets.
    fn decode_payload(&mut self, wide: bool) -> (data: Option<Vec<u8>>)
        ensures
            match payload(wide, old(self)@) {
                Some(expected) => data is Some && data->0@ == expected && final(self)@ == old(self)@.skip(sized_len(wide, expected) - 1),
                None => data is None,
            },
    {
        let ghost body = self@;
        let len: usize;
        if wide {
            if buffer_len(&self.buffer) < 4 {
                return None;
            }
            len = get_u32(&mut self.buffer) as usize;
        } else {
            if buffer_len(&self.buffer) < 1 {
                return None;
            }
            len = get_u8(&mut self.buffer) as usize;
        }
        if buffer_len(&self.buffer) < len {
            return None;
        }
        let ghost middle = self@;
        let data = take_octets(&mut self.buffer, len);
        proof {
            let width: int = if wide {
                4
            } else {
                1
            };
            assert(middle == body.skip(width));
            assert(data@ =~= body.subrange(width, width + len));
            assert(self@ =~= body.skip(width + len));
        }
        Some(data)
    }

    fn decode_binary8(&mut self) -> (result: Result<AmqpValue, AmqpError>)
        ensures
            agrees(parse_sized(0xa0, old(self)@), 1, old(self)@, final(self)@, result),
    {
        match self.decode_payload(false) {
            Some(data) => Ok(AmqpValue::Binary(data)),
            None => Err(AmqpError::decoding("Insufficient data for binary8")),
        }
    }

    fn decode_binary32(&mut self) -> (result: Result<AmqpValue, AmqpError>)
        ensures
            agrees(parse_sized(0xb0, old(self)@), 1, old(self)@, final(self)@, result),
    {
        match self.decode_payload(true) {
            Some(data) => Ok(AmqpValue::Binary(data)),
            None => Err(AmqpError::decoding("Insufficient data for binary32")),
        }
    }

    fn decode_string8(&mut self) -> (result: Result<AmqpValue, AmqpError>)
        ensures
            agrees(parse_sized(0xa1, old(self)@), 1, old(self)@, final(self)@, result),
    {
        match self.decode_payload(false) {
            Some(data) => match string_from_utf8(data) {
                Some(text) => Ok(AmqpValue::String(text)),
                None => Err(AmqpError::decoding("Invalid UTF-8 string")),
            },
            None => Err(AmqpError::decoding("Insufficient data for string8")),
        }
    }

    fn decode_string32(&mut self) -> (result: Result<AmqpValue, AmqpError>)
        ensures
            agrees(parse_sized(0xb1, old(self)@), 1, old(self)@, final(self)@, result),
    {
        match self.decode_payload(true) {
            Some(data) => match string_from_utf8(data) {
                Some(text) => Ok(AmqpValue::String(text)),
                None => Err(AmqpError::decoding("Invalid UTF-8 string")),
            },
            None => Err(AmqpError::decoding("Insufficient data for string32")),
        }
    }

    fn decode_symbol8(&mut self) -> (result: Result<AmqpValue, AmqpError>)
        ensures
            agrees(parse_sized(0xa3, old(self)@), 1, old(self)@, final(self)@, result),
    {
        match self.decode_payload(false) {
            Some(data) => match string_from_utf8(data) {
                Some(text) => Ok(AmqpValue::Symbol(AmqpSymbol(text))),
                None => Err(AmqpError::decoding("Invalid UTF-8 symbol")),
            },
            None => Err(AmqpError::decoding("Insufficient data for symbol8")),
        }
    }

    fn decode_symbol32(&mut self) -> (result: Result<AmqpValue, AmqpError>)
        ensures
            agrees(parse_sized(0xb3, old(self)@), 1, old(self)@, final(self)@, result),
    {
        match self.decode_payload(true) {
            Some(data) => match string_from_utf8(data) {
                Some(text) => Ok(AmqpValue::Symbol(AmqpSymbol(text))),
                None => Err(AmqpError::decoding("Invalid UTF-8 symbol")),
            },
            None => Err(AmqpError::decoding("Insufficient data for symbol32")),
        }
    }

    /// Reads `count` values one after the other.
    fn decode_items(&mut self, count: usize) -> (result: Result<Vec<AmqpValue>, AmqpError>)
        ensures
            match parse_items(old(self)@, count as nat, Seq::empty()) {
                Some((models, used)) => result is Ok && models_of(result->Ok_0@) == models
                    && final(self)@ == old(self)@.skip(used),
                None => result is Err && result->Err_0 is Decoding,
            },
        decreases old(self)@.len(), 1nat,
    {
        let ghost start = self@;
        let ghost mut consumed: int = 0;
        let mut items: Vec<AmqpValue> = Vec::new();
        let mut i: usize = 0;
        proof {
            assert(start.skip(0) =~= start);
            assert(models_of(items@) =~= Seq::<ValueModel>::empty());
        }
        while i < count
            invariant
                i <= count,
                start == old(self)@,
                0 <= consumed <= start.len(),
                self@ == start.skip(consumed),
                parse_items(start, count as nat, Seq::empty()) == advanced(
                    parse_items(self@, (count - i) as nat, models_of(items@)),
                    consumed,
                ),
            decreases count - i,
        {
            let ghost before = self@;
            let ghost seen = models_of(items@);
            proof {
                lemma_parse_value_bounds(before);
            }
            match self.decode_value() {
                Ok(value) => {
                    proof {
                        let used = parse_value(before).unwrap().1;
                        assert(self@ =~= start.skip(consumed + used));
                        assert(models_of(items@.push(value)) =~= seen.push(value@));
                        consumed = consumed + used;
                    }
                    items.push(value);
                },
                Err(e) => {
                    return Err(e);
                },
            }
            i = i + 1;
        }
        Ok(items)
    }

    /// Reads `count` entries one after the other, each a symbol and then
    /// a value, and enters them into a map in that order.
    fn decode_entries(&mut self, count: usize) -> (result: Result<AmqpMap, AmqpError>)
        ensures
            match parse_entries(old(self)@, count as nat, Seq::empty()) {
                Some((entries, used)) => result is Ok && result->Ok_0@ == entries && final(self)@
                    == old(self)@.skip(used),
                None => result is Err && result->Err_0 is Decoding,
            },
        decreases old(self)@.len(), 1nat,
    {
        let ghost start = self@;
        let ghost mut consumed: int = 0;
        let mut map = AmqpMap::new();
        let mut i: usize = 0;
        proof {
            assert(start.skip(0) =~= start);
        }
        while i < count
            invariant
                i <= count,
                start == old(self)@,
                0 <= consumed <= start.len(),
                self@ == start.skip(consumed),
                parse_entries(start, count as nat, Seq::empty()) == advanced(
                    parse_entries(self@, (count - i) as nat, map@),
                    consumed,
                ),
            decreases count - i,
        {
            let ghost before = self@;
            let ghost seen = map@;
            proof {
                lemma_parse_symbol_bounds(before);
            }
            let key = match self.decode_symbol() {
                Ok(key) => key,
                Err(e) => {
                    return Err(e);
                },
            };
            let ghost key_len = parse_symbol(before).unwrap().1;
            proof {
                lemma_parse_value_bounds(before.skip(key_len));
            }
            let value = match self.decode_value() {
                Ok(value) => value,
                Err(e) => {
                    return Err(e);
                },
            };
            proof {
                let used = parse_value(before.skip(key_len)).unwrap().1;
                assert(self@ =~= start.skip(consumed + key_len + used));
                assert(self@ =~= before.skip(key_len + used));
                consumed = consumed + key_len + used;
            }
            map.insert(key, value);
            i = i + 1;
        }
        Ok(map)
    }

    fn decode_array8(&mut self) -> (result: Result<AmqpValue, AmqpError>)
        ensures
            agrees(
                parse_value(seq![0xe0u8] + old(self)@),
                1,
                old(self)@,
                final(self)@,
                result,
            ),
        decreases old(self)@.len(), 2nat,
    {
        let ghost body = self@;
        proof {
            assert((seq![0xe0u8] + body).skip(1) =~= body);
        }
        if buffer_len(&self.buffer) < 2 {
            return Err(AmqpError::decoding("Insufficient data for array8 header"));
        }
        let size = get_u8(&mut self.buffer) as usize;
        let count = get_u8(&mut self.buffer) as usize;
        proof {
            assert(self@ =~= body.skip(2));
        }
        if buffer_len(&self.buffer) < size {
            return Err(AmqpError::decoding("Insufficient data for array8"));
        }
        match self.decode_items(count) {
            Ok(items) => {
                proof {
                    lemma_list_model(items);
                    lemma_parse_items_bounds(body.skip(2), count as nat, Seq::empty());
                    let used = parse_items(body.skip(2), count as nat, Seq::empty()).unwrap().1;
                    assert(self@ =~= body.skip(3 + used - 1));
                }
                Ok(AmqpValue::Array(items))
            },
            Err(e) => Err(e),
        }
    }

    fn decode_array32(&mut self) -> (result: Result<AmqpValue, AmqpError>)
        ensures
            agrees(
                parse_value(seq![0xf0u8] + old(self)@),
                1,
                old(self)@,
                final(self)@,
                result,
            ),
        decreases old(self)@.len(), 2nat,
    {
        let ghost body = self@;
        proof {
            assert((seq![0xf0u8] + body).skip(1) =~= body);
        }
        if buffer_len(&self.buffer) < 8 {
            return Err(AmqpError::decoding("Insufficient data for array32 header"));
        }
        let size = get_u32(&mut self.buffer) as usize;
        let count = get_u32(&mut self.buffer) as usize;
        proof {
            assert(self@ =~= body.skip(8));
        }
        if buffer_len(&self.buffer) < size {
            return Err(AmqpError::decoding("Insufficient data for array32"));
        }
        match self.decode_items(count) {
            Ok(items) => {
                proof {
                    lemma_list_model(items);
                    lemma_parse_items_bounds(body.skip(8), count as nat, Seq::empty());
                    let used = parse_items(body.skip(8), count as nat, Seq::empty()).unwrap().1;
                    assert(self@ =~= body.skip(9 + used - 1));
                }
                Ok(AmqpValue::Array(items))
            },
            Err(e) => Err(e),
        }
    }

    /// Decode a symbol: a value with one of the two symbol type codes.
    /// Anything else fails with a decoding error; for another type code
    /// the error names the code in decimal.
    pub fn decode_symbol(&mut self) -> (result: Result<AmqpSymbol, AmqpError>)
        ensures
            match parse_symbol(old(self)@) {
                Some((text, used)) => result is Ok && result->Ok_0@ == text && final(self)@
                    == old(self)@.skip(used),
                None => result is Err && result->Err_0 is Decoding,
            },
            old(self)@.len() > 0 && old(self)@[0] != 0xa3 && old(self)@[0] != 0xb3 ==> result is Err
                && result->Err_0->Decoding_0@ == "Invalid symbol type code: "@ + decimal(
                old(self)@[0] as nat,
            ),
    {
        if buffer_len(&self.buffer) == 0 {
            return Err(AmqpError::decoding("No data to decode"));
        }
        let ghost start = self@;
        let type_code = get_u8(&mut self.buffer);
        let ghost body = self@;
        let value = if type_code == TypeCode::Symbol8.code() {
            self.decode_symbol8()
        } else if type_code == TypeCode::Symbol32.code() {
            self.decode_symbol32()
        } else {
            let code_text = decimal_string(type_code as u32);
            let text = join("Invalid symbol type code: ", code_text.as_str());
            return Err(AmqpError::decoding(text.as_str()));
        };
        proof {
            match parse_symbol(start) {
                Some((text, used)) => {
                    assert(body.skip(used - 1) =~= start.skip(used));
                },
                None => {},
            }
        }
        match value {
            Ok(AmqpValue::Symbol(s)) => Ok(s),
            Ok(_) => Err(AmqpError::decoding("Expected symbol value")),
            Err(e) => Err(e),
        }
    }
}

/// A symbol with the given text.
fn symbol(text: &str) -> (symbol: AmqpSymbol)
    ensures
        symbol@ == text@,
{
    AmqpSymbol(text.to_owned())
}

/// The header as a map: one entry for each field that is set.
pub fn header_map(header: &Header) -> (map: AmqpMap)
    ensures
        map@ == header_entries(*header),
{
    let mut map = AmqpMap::new();
    if let Some(x) = header.durable {
        map.insert(symbol("durable"), AmqpValue::Boolean(x));
    }
    if let Some(x) = header.priority {
        map.insert(symbol("priority"), AmqpValue::Ubyte(x));
    }
    if let Some(x) = header.ttl {
        map.insert(symbol("ttl"), AmqpValue::Uint(x));
    }
    if let Some(x) = header.first_acquirer {
        map.insert(symbol("first_acquirer"), AmqpValue::Boolean(x));
    }
    if let Some(x) = header.delivery_count {
        map.insert(symbol("delivery_count"), AmqpValue::Uint(x));
    }
    map
}

/// The properties as a map: one entry for each field that is set.
pub fn properties_map(properties: &Properties) -> (map: AmqpMap)
    ensures
        map@ == properties_entries(properties@),
{
    let mut map = AmqpMap::new();
    if let Some(x) = &properties.message_id {
        map.insert(symbol("message_id"), x.clone());
    }
    if let Some(x) = &properties.user_id {
        map.insert(symbol("user_id"), AmqpValue::Binary(clone_octets(x)));
    }
    if let Some(x) = &properties.to {
        map.insert(symbol("to"), AmqpValue::String(x.clone()));
    }
    if let Some(x) = &properties.subject {
        map.insert(symbol("subject"), AmqpValue::String(x.clone()));
    }
    if let Some(x) = &properties.reply_to {
        map.insert(symbol("reply_to"), AmqpValue::String(x.clone()));
    }
    if let Some(x) = &properties.correlation_id {
        map.insert(symbol("correlation_id"), x.clone());
    }
    if let Some(x) = &properties.content_type {
        map.insert(symbol("content_type"), AmqpValue::Symbol(x.clone()));
    }
    if let Some(x) = &properties.content_encoding {
        map.insert(symbol("content_encoding"), AmqpValue::Symbol(x.clone()));
    }
    if let Some(x) = properties.absolute_expiry_time {
        map.insert(symbol("absolute_expiry_time"), AmqpValue::Timestamp(x));
    }
    if let Some(x) = properties.creation_time {
        map.insert(symbol("creation_time"), AmqpValue::Timestamp(x));
    }
    if let Some(x) = &properties.group_id {
        map.insert(symbol("group_id"), AmqpValue::String(x.clone()));
    }
    if let Some(x) = properties.group_sequence {
        map.insert(symbol("group_sequence"), AmqpValue::Uint(x));
    }
    if let Some(x) = &properties.reply_to_group_id {
        map.insert(symbol("reply_to_group_id"), AmqpValue::String(x.clone()));
    }
    map
}

/// The header that a map stands for.
pub fn header_from_map(map: &AmqpMap) -> (header: Header)
    ensures
        header == header_from(map@),
{
    let mut header = Header::new();
    if let Some(AmqpValue::Boolean(x)) = map.get(&symbol("durable")) {
        header.durable = Some(*x);
    }
    if let Some(AmqpValue::Ubyte(x)) = map.get(&symbol("priority")) {
        header.priority = Some(*x);
    }
    if let Some(AmqpValue::Uint(x)) = map.get(&symbol("ttl")) {
        header.ttl = Some(*x);
    }
    if let Some(AmqpValue::Boolean(x)) = map.get(&symbol("first_acquirer")) {
        header.first_acquirer = Some(*x);
    }
    if let Some(AmqpValue::Uint(x)) = map.get(&symbol("delivery_count")) {
        header.delivery_count = Some(*x);
    }
    header
}

/// The value under `key`, copied, where the map has one.
fn field_value(map: &AmqpMap, key: &str) -> (field: Option<AmqpValue>)
    ensures
        crate::message::value_model(field) == lookup(map@, key@),
{
    match map.get(&symbol(key)) {
        Some(x) => Some(x.clone()),
        None => None,
    }
}

/// The octets under `key`, copied, where the map has a binary there.
fn field_octets(map: &AmqpMap, key: &str) -> (field: Option<Vec<u8>>)
    ensures
        match lookup(map@, key@) {
            Some(ValueModel::Binary(x)) => field is Some && field->0@ == x,
            _ => field is None,
        },
{
    match map.get(&symbol(key)) {
        Some(AmqpValue::Binary(x)) => Some(clone_octets(x)),
        _ => None,
    }
}

/// The text under `key`, copied, where the map has a string there.
fn field_text(map: &AmqpMap, key: &str) -> (field: Option<String>)
    ensures
        match lookup(map@, key@) {
            Some(ValueModel::String(x)) => field is Some && field->0@ == x,
            _ => field is None,
        },
{
    match map.get(&symbol(key)) {
        Some(AmqpValue::String(x)) => Some(x.clone()),
        _ => None,
    }
}

/// The symbol under `key`, copied, where the map has a symbol there.
fn field_symbol(map: &AmqpMap, key: &str) -> (field: Option<AmqpSymbol>)
    ensures
        match lookup(map@, key@) {
            Some(ValueModel::Symbol(x)) => field is Some && field->0@ == x,
            _ => field is None,
        },
{
    match map.get(&symbol(key)) {
        Some(AmqpValue::Symbol(x)) => Some(x.clone()),
        _ => None,
    }
}

/// The timestamp under `key`, where the map has a timestamp there.
fn field_timestamp(map: &AmqpMap, key: &str) -> (field: Option<i64>)
    ensures
        field == match lookup(map@, key@) {
            Some(ValueModel::Timestamp(x)) => Some(x),
            _ => None,
        },
{
    match map.get(&symbol(key)) {
        Some(AmqpValue::Timestamp(x)) => Some(*x),
        _ => None,
    }
}

/// The number under `key`, where the map has a uint there.
fn field_uint(map: &AmqpMap, key: &str) -> (field: Option<u32>)
    ensures
        field == match lookup(map@, key@) {
            Some(ValueModel::Uint(x)) => Some(x),
            _ => None,
        },
{
    match map.get(&symbol(key)) {
        Some(AmqpValue::Uint(x)) => Some(*x),
        _ => None,
    }
}

/// The properties that a map stands for.
pub fn properties_from_map(map: &AmqpMap) -> (properties: Properties)
    ensures
        properties@ == properties_from(map@),
{
    let message_id = field_value(map, "message_id");
    let user_id = field_octets(map, "user_id");
    let to = field_text(map, "to");
    let subject = field_text(map, "subject");
    let reply_to = field_text(map, "reply_to");
    let correlation_id = field_value(map, "correlation_id");
    let content_type = field_symbol(map, "content_type");
    let content_encoding = field_symbol(map, "content_encoding");
    let absolute_expiry_time = field_timestamp(map, "absolute_expiry_time");
    let creation_time = field_timestamp(map, "creation_time");
    let group_id = field_text(map, "group_id");
    let group_sequence = field_uint(map, "group_sequence");
    let reply_to_group_id = field_text(map, "reply_to_group_id");
    Properties {
        message_id,
        user_id,
        to,
        subject,
        reply_to,
        correlation_id,
        content_type,
        content_encoding,
        absolute_expiry_time,
        creation_time,
        group_id,
        group_sequence,
        reply_to_group_id,
    }
}

impl Encoder {
    /// Writes the three octets that start the section with the given
    /// code.
    fn put_marker(&mut self, code: u8)
        ensures
            final(self)@ == old(self)@ + marker(code),
    {
        put_u8(&mut self.buffer, 0x00);
        put_u8(&mut self.buffer, 0x53);
        put_u8(&mut self.buffer, code);
        assert(self@ =~= old(self)@ + marker(code));
    }

    /// Writes a section that is a map, behind its code, or nothing where
    /// it is absent.
    fn encode_section(&mut self, code: u8, section: &Option<AmqpMap>) -> (result: Result<
        (),
        AmqpError,
    >)
        ensures
            result is Ok <==> section_fits(crate::message::map_model(*section)),
            result is Ok ==> final(self)@ == old(self)@ + wire_section(
                code,
                crate::message::map_model(*section),
            ),
            result is Err ==> result->Err_0 is Encoding,
    {
        match section {
            Some(map) => {
                self.put_marker(code);
                let result = self.encode_map(map);
                assert(result is Ok ==> self@ =~= old(self)@ + wire_section(
                    code,
                    crate::message::map_model(*section),
                ));
                result
            },
            None => {
                assert(self@ =~= old(self)@ + Seq::<u8>::empty());
                Ok(())
            },
        }
    }

    /// Writes a body that is not made of several parts, behind its code.
    fn encode_part(&mut self, part: &Body) -> (result: Result<(), AmqpError>)
        ensures
            result is Ok <==> part_fits(part@),
            result is Ok ==> final(self)@ == old(self)@ + wire_part(part@),
            result is Err ==> result->Err_0 is Encoding,
    {
        let result = match part {
            Body::Value(value) => {
                self.put_marker(VALUE_CODE);
                self.encode_value(value)
            },
            Body::Data(data) => {
                self.put_marker(DATA_CODE);
                self.encode_binary(data.as_slice())
            },
            Body::Sequence(sequences) => {
                self.put_marker(SEQUENCE_CODE);
                self.encode_list(sequences)
            },
            Body::Multiple(_) => Err(AmqpError::encoding("Nested multiple bodies not supported")),
        };
        assert(result is Ok ==> self@ =~= old(self)@ + wire_part(part@));
        result
    }

    /// Writes some bodies one after the other, none of them made of
    /// several parts.
    fn encode_parts(&mut self, bodies: &Vec<Body>) -> (result: Result<(), AmqpError>)
        ensures
            result is Ok <==> parts_fit(body_models(bodies@), bodies@.len()),
            result is Ok ==> final(self)@ == old(self)@ + wire_parts(
                body_models(bodies@),
                bodies@.len(),
            ),
            result is Err ==> result->Err_0 is Encoding,
    {
        let ghost parts = body_models(bodies@);
        let ghost start = self@;
        let mut i: usize = 0;
        assert(self@ =~= start + wire_parts(parts, 0));
        while i < bodies.len()
            invariant
                i <= bodies@.len(),
                start == old(self)@,
                parts == body_models(bodies@),
                self@ == start + wire_parts(parts, i as nat),
                parts_fit(parts, i as nat),
            decreases bodies@.len() - i,
        {
            match self.encode_part(&bodies[i]) {
                Ok(()) => {},
                Err(e) => {
                    proof {
                        lemma_parts_fit(parts, bodies@.len() as nat);
                        assert(!part_fits(parts[i as int]));
                    }
                    return Err(e);
                },
            }
            proof {
                assert(parts[i as int] == bodies@[i as int]@);
                assert(self@ =~= start + wire_parts(parts, (i + 1) as nat));
            }
            i = i + 1;
        }
        Ok(())
    }

    /// Writes a body: a body of several parts as its code, the number of
    /// the parts and the parts one after the other, any other body as
    /// itself.
    fn encode_body(&mut self, body: &Option<Body>) -> (result: Result<(), AmqpError>)
        ensures
            result is Ok <==> body_fits(crate::message::body_model(*body)),
            result is Ok ==> final(self)@ == old(self)@ + wire_body(
                crate::message::body_model(*body),
            ),
            result is Err ==> result->Err_0 is Encoding,
    {
        match body {
            Some(Body::Multiple(bodies)) => {
                proof {
                    lemma_multiple_model(*bodies);
                }
                if bodies.len() > 0xffff_ffff {
                    return Err(AmqpError::encoding("Number of bodies does not fit in 32 bits"));
                }
                self.put_marker(MULTIPLE_CODE);
                let _ = self.encode_uint(bodies.len() as u32);
                let result = self.encode_parts(bodies);
                assert(result is Ok ==> self@ =~= old(self)@ + wire_body(
                    crate::message::body_model(*body),
                ));
                result
            },
            Some(part) => self.encode_part(part),
            None => {
                assert(self@ =~= old(self)@ + Seq::<u8>::empty());
                Ok(())
            },
        }
    }

    /// Writes the header, where there is one, as a map.
    fn encode_header(&mut self, header: &Option<Header>) -> (result: Result<(), AmqpError>)
        ensures
            result is Ok <==> section_fits(header_section(*header)),
            result is Ok ==> final(self)@ == old(self)@ + wire_section(
                HEADER_CODE,
                header_section(*header),
            ),
            result is Err ==> result->Err_0 is Encoding,
    {
        let section = match header {
            Some(header) => Some(header_map(header)),
            None => None,
        };
        self.encode_section(HEADER_CODE, &section)
    }

    /// Writes the properties, where there are any, as a map.
    fn encode_properties(&mut self, properties: &Option<Properties>) -> (result: Result<
        (),
        AmqpError,
    >)
        ensures
            result is Ok <==> section_fits(
                properties_section(crate::message::properties_model(*properties)),
            ),
            result is Ok ==> final(self)@ == old(self)@ + wire_section(
                PROPERTIES_CODE,
                properties_section(crate::message::properties_model(*properties)),
            ),
            result is Err ==> result->Err_0 is Encoding,
    {
        let section = match properties {
            Some(properties) => Some(properties_map(properties)),
            None => None,
        };
        self.encode_section(PROPERTIES_CODE, &section)
    }

    /// Encode an AMQP message: its sections in their fixed order, absent
    /// sections left out, each behind the three octets that say which
    /// section it is. The header and the properties are written as maps
    /// from field names to the fields that are set. Encoding fails where
    /// a length does not fit its prefix or a body of several parts has
    /// such a body among its parts.
    pub fn encode_message(&mut self, message: &Message) -> (result: Result<(), AmqpError>)
        ensures
            result is Ok <==> message_fits(message@),
            result is Ok ==> final(self)@ == old(self)@ + wire_message(message@),
            result is Err ==> result->Err_0 is Encoding,
    {
        let ghost m = message@;
        let ghost start = self@;
        let ghost a = wire_section(HEADER_CODE, header_section(m.header));
        let ghost b = wire_section(DELIVERY_ANNOTATIONS_CODE, m.delivery_annotations);
        let ghost c = wire_section(MESSAGE_ANNOTATIONS_CODE, m.message_annotations);
        let ghost d = wire_section(PROPERTIES_CODE, properties_section(m.properties));
        let ghost e = wire_section(APPLICATION_PROPERTIES_CODE, m.application_properties);
        let ghost f = wire_body(m.body);
        let ghost g = wire_section(FOOTER_CODE, m.footer);
        match self.encode_header(&message.header) {
            Ok(()) => {},
            Err(error) => {
                return Err(error);
            },
        }
        match self.encode_section(DELIVERY_ANNOTATIONS_CODE, &message.delivery_annotations) {
            Ok(()) => {},
            Err(error) => {
                return Err(error);
            },
        }
        assert(self@ =~= start + (a + b));
        match self.encode_section(MESSAGE_ANNOTATIONS_CODE, &message.message_annotations) {
            Ok(()) => {},
            Err(error) => {
                return Err(error);
            },
        }
        assert(self@ =~= start + (a + b + c));
        match self.encode_properties(&message.properties) {
            Ok(()) => {},
            Err(error) => {
                return Err(error);
            },
        }
        assert(self@ =~= start + (a + b + c + d));
        match self.encode_section(APPLICATION_PROPERTIES_CODE, &message.application_properties) {
            Ok(()) => {},
            Err(error) => {
                return Err(error);
            },
        }
        assert(self@ =~= start + (a + b + c + d + e));
        match self.encode_body(&message.body) {
            Ok(()) => {},
            Err(error) => {
                return Err(error);
            },
        }
        assert(self@ =~= start + (a + b + c + d + e + f));
        match self.encode_section(FOOTER_CODE, &message.footer) {
            Ok(()) => {},
            Err(error) => {
                return Err(error);
            },
        }
        assert(self@ =~= start + (a + b + c + d + e + f + g));
        Ok(())
    }
}

impl Decoder {
    /// True when what remains starts with the three octets that start
    /// the section with the given code.
    fn at_section(&self, code: u8) -> (yes: bool)
        ensures
            yes == starts_section(self@, code),
    {
        buffer_len(&self.buffer) >= 3 && octet_at(&self.buffer, 0) == 0x00 && octet_at(
            &self.buffer,
            1,
        ) == 0x53 && octet_at(&self.buffer, 2) == code
    }

    /// Takes the three octets that start a section.
    fn skip_marker(&mut self)
        requires
            old(self)@.len() >= 3,
        ensures
            final(self)@ == old(self)@.skip(3),
    {
        let _ = get_u8(&mut self.buffer);
        let _ = get_u8(&mut self.buffer);
        let _ = get_u8(&mut self.buffer);
        assert(self@ =~= old(self)@.skip(3));
    }

    /// Reads the section with the given code, where what remains starts
    /// with it: a map behind the code.
    fn decode_section(&mut self, code: u8) -> (result: Result<Option<AmqpMap>, AmqpError>)
        ensures
            match parse_section(old(self)@, code) {
                Some((model, used)) => result is Ok && crate::message::map_model(result->Ok_0)
                    == model && final(self)@ == old(self)@.skip(used) && 0 <= used <= old(self)@.len(),
                None => result is Err && result->Err_0 is Decoding,
            },
    {
        let ghost start = self@;
        proof {
            reveal(parse_section);
            lemma_parse_section_bounds(start, code);
            assert(start.skip(0) =~= start);
        }
        if !self.at_section(code) {
            return Ok(None);
        }
        self.skip_marker();
        proof {
            lemma_parse_value_bounds(start.skip(3));
        }
        match self.decode_value() {
            Ok(AmqpValue::Mapping(map)) => {
                proof {
                    let used = parse_value(start.skip(3)).unwrap().1;
                    assert(self@ =~= start.skip(3 + used));
                }
                Ok(Some(map))
            },
            Ok(_) => Err(AmqpError::decoding("Section holds no map")),
            Err(e) => Err(e),
        }
    }

    /// Reads a body that is not made of several parts: its code, and a
    /// value of its kind.
    fn decode_part(&mut self) -> (result: Result<Body, AmqpError>)
        ensures
            match parse_part(old(self)@) {
                Some((model, used)) => result is Ok && result->Ok_0@ == model && final(self)@
                    == old(self)@.skip(used) && 0 < used <= old(self)@.len(),
                None => result is Err && result->Err_0 is Decoding,
            },
    {
        let ghost start = self@;
        proof {
            reveal(parse_part);
            lemma_parse_part_bounds(start);
        }
        let data = self.at_section(DATA_CODE);
        let sequence = self.at_section(SEQUENCE_CODE);
        let single = self.at_section(VALUE_CODE);
        if !(data || sequence || single) {
            return Err(AmqpError::decoding("No body section"));
        }
        self.skip_marker();
        proof {
            lemma_parse_value_bounds(start.skip(3));
        }
        let value = match self.decode_value() {
            Ok(value) => value,
            Err(e) => {
                return Err(e);
            },
        };
        proof {
            let used = parse_value(start.skip(3)).unwrap().1;
            assert(self@ =~= start.skip(3 + used));
        }
        if data {
            match value {
                AmqpValue::Binary(octets) => Ok(Body::Data(octets)),
                _ => Err(AmqpError::decoding("Data section holds no binary")),
            }
        } else if sequence {
            match value {
                AmqpValue::List(items) => {
                    proof {
                        lemma_list_model(items);
                    }
                    Ok(Body::Sequence(items))
                },
                _ => Err(AmqpError::decoding("Sequence section holds no list")),
            }
        } else {
            Ok(Body::Value(value))
        }
    }

    /// Reads `count` bodies one after the other, none of them made of
    /// several parts.
    fn decode_parts(&mut self, count: usize) -> (result: Result<Vec<Body>, AmqpError>)
        ensures
            match parse_parts(old(self)@, count as nat, Seq::empty()) {
                Some((models, used)) => result is Ok && body_models(result->Ok_0@) == models
                    && final(self)@ == old(self)@.skip(used) && 0 <= used <= old(self)@.len(),
                None => result is Err && result->Err_0 is Decoding,
            },
    {
        let ghost start = self@;
        let ghost mut consumed: int = 0;
        let mut parts: Vec<Body> = Vec::new();
        let mut i: usize = 0;
        proof {
            assert(start.skip(0) =~= start);
            assert(body_models(parts@) =~= Seq::<BodyModel>::empty());
        }
        while i < count
            invariant
                i <= count,
                start == old(self)@,
                0 <= consumed <= start.len(),
                self@ == start.skip(consumed),
                parse_parts(start, count as nat, Seq::empty()) == advanced(
                    parse_parts(self@, (count - i) as nat, body_models(parts@)),
                    consumed,
                ),
            decreases count - i,
        {
            let ghost before = self@;
            let ghost seen = body_models(parts@);
            match self.decode_part() {
                Ok(part) => {
                    proof {
                        let used = parse_part(before).unwrap().1;
                        assert(self@ =~= start.skip(consumed + used));
                        assert(body_models(parts@.push(part)) =~= seen.push(part@));
                        consumed = consumed + used;
                    }
                    parts.push(part);
                },
                Err(e) => {
                    return Err(e);
                },
            }
            i = i + 1;
        }
        Ok(parts)
    }

    /// Reads the body, where what remains starts with the code of one.
    fn decode_body(&mut self) -> (result: Result<Option<Body>, AmqpError>)
        ensures
            match parse_body(old(self)@) {
                Some((model, used)) => result is Ok && crate::message::body_model(result->Ok_0)
                    == model && final(self)@ == old(self)@.skip(used) && 0 <= used <= old(self)@.len(),
                None => result is Err && result->Err_0 is Decoding,
            },
    {
        let ghost start = self@;
        proof {
            reveal(parse_body);
            lemma_parse_body_bounds(start);
            assert(start.skip(0) =~= start);
        }
        if self.at_section(MULTIPLE_CODE) {
            self.skip_marker();
            proof {
                lemma_parse_value_bounds(start.skip(3));
            }
            let count = match self.decode_value() {
                Ok(AmqpValue::Uint(count)) => count,
                Ok(_) => {
                    return Err(AmqpError::decoding("Number of bodies is no uint"));
                },
                Err(e) => {
                    return Err(e);
                },
            };
            let ghost used = parse_value(start.skip(3)).unwrap().1;
            assert(self@ =~= start.skip(3 + used));
            match self.decode_parts(count as usize) {
                Ok(parts) => {
                    proof {
                        lemma_multiple_model(parts);
                        let more = parse_parts(
                            start.skip(3 + used),
                            count as nat,
                            Seq::empty(),
                        ).unwrap().1;
                        assert(self@ =~= start.skip(3 + used + more));
                    }
                    Ok(Some(Body::Multiple(parts)))
                },
                Err(e) => Err(e),
            }
        } else if self.at_section(DATA_CODE) || self.at_section(SEQUENCE_CODE) || self.at_section(
            VALUE_CODE,
        ) {
            match self.decode_part() {
                Ok(part) => Ok(Some(part)),
                Err(e) => Err(e),
            }
        } else {
            Ok(None)
        }
    }

    /// Decode an AMQP message: its sections in their fixed order, each
    /// where what remains goes on with the section's code. What follows
    /// the last section is left unread. Decoding fails where a section
    /// starts and cannot be decoded.
    pub fn decode_message(&mut self) -> (result: Result<Message, AmqpError>)
        ensures
            match parse_message(old(self)@) {
                Some((model, used)) => result is Ok && result->Ok_0@ == model && final(self)@
                    == old(self)@.skip(used) && 0 <= used <= old(self)@.len(),
                None => result is Err && result->Err_0 is Decoding,
            },
    {
        let ghost start = self@;
        let header = match self.decode_section(HEADER_CODE) {
            Ok(section) => section,
            Err(e) => {
                return Err(e);
            },
        };
        let ghost u0 = parse_section(start, HEADER_CODE).unwrap().1;
        let delivery_annotations = match self.decode_section(DELIVERY_ANNOTATIONS_CODE) {
            Ok(section) => section,
            Err(e) => {
                return Err(e);
            },
        };
        let ghost u1 = parse_section(start.skip(u0), DELIVERY_ANNOTATIONS_CODE).unwrap().1;
        assert(self@ =~= start.skip(u0 + u1));
        let message_annotations = match self.decode_section(MESSAGE_ANNOTATIONS_CODE) {
            Ok(section) => section,
            Err(e) => {
                return Err(e);
            },
        };
        let ghost u2 = parse_section(start.skip(u0 + u1), MESSAGE_ANNOTATIONS_CODE).unwrap().1;
        assert(self@ =~= start.skip(u0 + u1 + u2));
        let properties = match self.decode_section(PROPERTIES_CODE) {
            Ok(section) => section,
            Err(e) => {
                return Err(e);
            },
        };
        let ghost u3 = parse_section(start.skip(u0 + u1 + u2), PROPERTIES_CODE).unwrap().1;
        assert(self@ =~= start.skip(u0 + u1 + u2 + u3));
        let application_properties = match self.decode_section(APPLICATION_PROPERTIES_CODE) {
            Ok(section) => section,
            Err(e) => {
                return Err(e);
            },
        };
        let ghost u4 = parse_section(
            start.skip(u0 + u1 + u2 + u3),
            APPLICATION_PROPERTIES_CODE,
        ).unwrap().1;
        assert(self@ =~= start.skip(u0 + u1 + u2 + u3 + u4));
        let body = match self.decode_body() {
            Ok(body) => body,
            Err(e) => {
                return Err(e);
            },
        };
        let ghost u5 = parse_body(start.skip(u0 + u1 + u2 + u3 + u4)).unwrap().1;
        assert(self@ =~= start.skip(u0 + u1 + u2 + u3 + u4 + u5));
        let footer = match self.decode_section(FOOTER_CODE) {
            Ok(section) => section,
            Err(e) => {
                return Err(e);
            },
        };
        let ghost u6 = parse_section(start.skip(u0 + u1 + u2 + u3 + u4 + u5), FOOTER_CODE).unwrap().1;
        assert(self@ =~= start.skip(u0 + u1 + u2 + u3 + u4 + u5 + u6));
        Ok(
            Message {
                header: header_from_section(&header),
                delivery_annotations,
                message_annotations,
                properties: properties_from_section(&properties),
                application_properties,
                body,
                footer,
            },
        )
    }
}

/// The header that a section stands for.
fn header_from_section(section: &Option<AmqpMap>) -> (header: Option<Header>)
    ensures
        header == header_of(crate::message::map_model(*section)),
{
    match section {
        Some(map) => Some(header_from_map(map)),
        None => None,
    }
}

/// The properties that a section stands for.
fn properties_from_section(section: &Option<AmqpMap>) -> (properties: Option<Properties>)
    ensures
        crate::message::properties_model(properties) == properties_of(
            crate::message::map_model(*section),
        ),
{
    match section {
        Some(map) => Some(properties_from_map(map)),
        None => None,
    }
}

} // verus!
