//! Reading back what was written: the proofs that the wire format loses
//! nothing, that it picks the shortest length form, and that damaged
//! input is refused.

use vstd::prelude::*;
use vstd::utf8::{
    char_is_scalar, char_u32_cast, encode_utf8, encode_utf8_decode_utf8, encode_utf8_valid_utf8,
    is_scalar,
};
use crate::types::{has_key, keys_distinct, lemma_position_of_bounds, with_entry, ValueModel};
use crate::wire::{
    be_u128, be_u16, be_u32, be_u64, entries_fit, entries_keys_unique, fits, is_type_code,
    items_fit, items_keys_unique, keys_unique, lemma_be_u128, lemma_be_u16, lemma_be_u32,
    lemma_be_u64, lemma_entries_fit, lemma_items_fit, lemma_wire_items_len, lemma_wire_value_nonempty, parse_entries,
    parse_fixed, parse_items, parse_sized, parse_symbol, parse_value, payload, sized_header,
    sized_len, u128_from_be, u32_from_be, u64_from_be, wire_binary, wire_entries, wire_items,
    wire_string, wire_symbol, wire_value,
};

verus! {

/// A payload behind its length, in the shortest form, is read back whole,
/// whatever follows it.
pub proof fn lemma_payload_round_trip(code8: u8, code32: u8, data: Seq<u8>, rest: Seq<u8>)
    requires
        data.len() <= u32::MAX,
    ensures
        ({
            let written = sized_header(code8, code32, data.len()) + data + rest;
            let wide = data.len() > 255;
            &&& written[0] == (if wide {
                code32
            } else {
                code8
            })
            &&& payload(wide, written.skip(1)) == Some(data)
            &&& sized_len(wide, data) == (sized_header(code8, code32, data.len()) + data).len()
        }),
{
    let written = sized_header(code8, code32, data.len()) + data + rest;
    let body = written.skip(1);
    if data.len() <= 255 {
        assert(body[0] == data.len() as u8);
        assert(body.subrange(1, 1 + body[0]) =~= data);
    } else {
        let len = data.len() as u32;
        lemma_be_u32(len, data + rest);
        assert(body =~= be_u32(len) + (data + rest));
        assert(body.subrange(4, 4 + u32_from_be(body)) =~= data);
    }
}

/// What starts with the code of a value of fixed width is parsed as
/// such a value.
proof fn lemma_parse_fixed_code(bytes: Seq<u8>)
    requires
        bytes.len() > 0,
        bytes[0] < 0xa0,
        bytes[0] != 0x45,
    ensures
        parse_value(bytes) == parse_fixed(bytes[0], bytes.skip(1)),
{
}

/// What starts with the code of a binary, string or symbol is parsed as
/// such a value.
proof fn lemma_parse_sized_code(bytes: Seq<u8>)
    requires
        bytes.len() > 0,
        bytes[0] == 0xa0 || bytes[0] == 0xb0 || bytes[0] == 0xa1 || bytes[0] == 0xb1 || bytes[0]
            == 0xa3 || bytes[0] == 0xb3,
    ensures
        parse_value(bytes) == parse_sized(bytes[0], bytes.skip(1)),
{
}

proof fn lemma_round_trip_one_octet(v: ValueModel, rest: Seq<u8>)
    requires
        v is Null || v is Boolean || v is Ubyte || v is Byte,
    ensures
        parse_value(wire_value(v) + rest) == Some((v, wire_value(v).len() as int)),
{
    let written = wire_value(v) + rest;
    let body = written.skip(1);
    lemma_parse_fixed_code(written);
    match v {
        ValueModel::Byte(n) => {
            assert(body[0] == n as u8);
            assert((n as u8) as i8 == n) by (bit_vector);
        },
        _ => {},
    }
}

proof fn lemma_round_trip_two_octets(v: ValueModel, rest: Seq<u8>)
    requires
        v is Ushort || v is Short,
    ensures
        parse_value(wire_value(v) + rest) == Some((v, wire_value(v).len() as int)),
{
    let written = wire_value(v) + rest;
    let body = written.skip(1);
    lemma_parse_fixed_code(written);
    match v {
        ValueModel::Ushort(n) => {
            lemma_be_u16(n, rest);
            assert(body =~= be_u16(n) + rest);
        },
        ValueModel::Short(n) => {
            lemma_be_u16(n as u16, rest);
            assert(body =~= be_u16(n as u16) + rest);
            assert((n as u16) as i16 == n) by (bit_vector);
        },
        _ => {},
    }
}

proof fn lemma_round_trip_four_octets(v: ValueModel, rest: Seq<u8>)
    requires
        v is Uint || v is Int || v is Float || v is Decimal32 || v is Char,
    ensures
        parse_value(wire_value(v) + rest) == Some((v, wire_value(v).len() as int)),
{
    broadcast use char_is_scalar, char_u32_cast;

    let written = wire_value(v) + rest;
    let body = written.skip(1);
    lemma_parse_fixed_code(written);
    let raw: u32 = match v {
        ValueModel::Uint(n) => n,
        ValueModel::Int(n) => n as u32,
        ValueModel::Float(n) => n,
        ValueModel::Decimal32(n) => n,
        ValueModel::Char(c) => c as u32,
        _ => 0,
    };
    lemma_be_u32(raw, rest);
    assert(body =~= be_u32(raw) + rest);
    assert(u32_from_be(body) == raw);
    assert(body.len() >= 4);
    match v {
        ValueModel::Int(n) => {
            assert((n as u32) as i32 == n) by (bit_vector);
        },
        ValueModel::Char(c) => {
            assert(is_scalar(c as u32));
            assert((c as u32) as char == c);
        },
        _ => {},
    }
}

proof fn lemma_round_trip_eight_octets(v: ValueModel, rest: Seq<u8>)
    requires
        v is Ulong || v is Long || v is Double || v is Decimal64 || v is Timestamp,
    ensures
        parse_value(wire_value(v) + rest) == Some((v, wire_value(v).len() as int)),
{
    let written = wire_value(v) + rest;
    let body = written.skip(1);
    lemma_parse_fixed_code(written);
    let raw: u64 = match v {
        ValueModel::Ulong(n) => n,
        ValueModel::Long(n) => n as u64,
        ValueModel::Double(n) => n,
        ValueModel::Decimal64(n) => n,
        ValueModel::Timestamp(n) => n as u64,
        _ => 0,
    };
    lemma_be_u64(raw, rest);
    assert(body =~= be_u64(raw) + rest);
    assert(u64_from_be(body) == raw);
    assert(body.len() >= 8);
    match v {
        ValueModel::Long(n) => {
            assert((n as u64) as i64 == n) by (bit_vector);
        },
        ValueModel::Timestamp(n) => {
            assert((n as u64) as i64 == n) by (bit_vector);
        },
        _ => {},
    }
}

proof fn lemma_round_trip_sixteen_octets(v: ValueModel, rest: Seq<u8>)
    requires
        v is Decimal128 || v is Uuid,
    ensures
        parse_value(wire_value(v) + rest) == Some((v, wire_value(v).len() as int)),
{
    let written = wire_value(v) + rest;
    let body = written.skip(1);
    lemma_parse_fixed_code(written);
    let raw: u128 = match v {
        ValueModel::Decimal128(n) => n,
        ValueModel::Uuid(n) => n,
        _ => 0,
    };
    lemma_be_u128(raw, rest);
    assert(body =~= be_u128(raw) + rest);
    assert(u128_from_be(body) == raw);
    assert(body.len() >= 16);
}

/// A binary value is read back from its octets, whatever follows them.
proof fn lemma_binary_round_trip(data: Seq<u8>, rest: Seq<u8>)
    requires
        data.len() <= u32::MAX,
    ensures
        parse_value(wire_value(ValueModel::Binary(data)) + rest) == Some(
            (ValueModel::Binary(data), wire_value(ValueModel::Binary(data)).len() as int),
        ),
{
    let written = sized_header(0xa0, 0xb0, data.len()) + data + rest;
    assert(wire_value(ValueModel::Binary(data)) + rest == written);
    lemma_payload_round_trip(0xa0, 0xb0, data, rest);
    lemma_parse_sized_code(written);
    assert(payload(written[0] >= 0xb0, written.skip(1)) == Some(data));
}

/// A string is read back from its octets, whatever follows them.
proof fn lemma_string_round_trip(text: Seq<char>, rest: Seq<u8>)
    requires
        encode_utf8(text).len() <= u32::MAX,
    ensures
        parse_value(wire_value(ValueModel::String(text)) + rest) == Some(
            (ValueModel::String(text), wire_value(ValueModel::String(text)).len() as int),
        ),
{
    let data = encode_utf8(text);
    let written = sized_header(0xa1, 0xb1, data.len()) + data + rest;
    assert(wire_value(ValueModel::String(text)) + rest == written);
    lemma_payload_round_trip(0xa1, 0xb1, data, rest);
    lemma_parse_sized_code(written);
    encode_utf8_valid_utf8(text);
    encode_utf8_decode_utf8(text);
    assert(payload(written[0] >= 0xb0, written.skip(1)) == Some(data));
}

/// A symbol is read back as a value from its octets, whatever follows
/// them.
proof fn lemma_symbol_value_round_trip(text: Seq<char>, rest: Seq<u8>)
    requires
        encode_utf8(text).len() <= u32::MAX,
    ensures
        parse_value(wire_value(ValueModel::Symbol(text)) + rest) == Some(
            (ValueModel::Symbol(text), wire_value(ValueModel::Symbol(text)).len() as int),
        ),
{
    let data = encode_utf8(text);
    let written = sized_header(0xa3, 0xb3, data.len()) + data + rest;
    assert(wire_value(ValueModel::Symbol(text)) + rest == written);
    lemma_payload_round_trip(0xa3, 0xb3, data, rest);
    lemma_parse_sized_code(written);
    encode_utf8_valid_utf8(text);
    encode_utf8_decode_utf8(text);
    assert(payload(written[0] >= 0xb0, written.skip(1)) == Some(data));
}

/// A binary, string or symbol value is read back from its octets,
/// whatever follows them.
proof fn lemma_round_trip_sized(v: ValueModel, rest: Seq<u8>)
    requires
        v is Binary || v is String || v is Symbol,
        fits(v),
    ensures
        parse_value(wire_value(v) + rest) == Some((v, wire_value(v).len() as int)),
{
    match v {
        ValueModel::Binary(data) => {
            lemma_binary_round_trip(data, rest);
        },
        ValueModel::String(text) => {
            lemma_string_round_trip(text, rest);
        },
        ValueModel::Symbol(text) => {
            lemma_symbol_value_round_trip(text, rest);
        },
        _ => {},
    }
}

/// A value that is no list, map or array is read back from its octets,
/// whatever follows them.
pub proof fn lemma_plain_round_trip(v: ValueModel, rest: Seq<u8>)
    requires
        fits(v),
        !(v is List),
        !(v is Mapping),
        !(v is Array),
    ensures
        parse_value(wire_value(v) + rest) == Some((v, wire_value(v).len() as int)),
{
    if v is Null || v is Boolean || v is Ubyte || v is Byte {
        lemma_round_trip_one_octet(v, rest);
    } else if v is Ushort || v is Short {
        lemma_round_trip_two_octets(v, rest);
    } else if v is Uint || v is Int || v is Float || v is Decimal32 || v is Char {
        lemma_round_trip_four_octets(v, rest);
    } else if v is Ulong || v is Long || v is Double || v is Decimal64 || v is Timestamp {
        lemma_round_trip_eight_octets(v, rest);
    } else if v is Decimal128 || v is Uuid {
        lemma_round_trip_sixteen_octets(v, rest);
    } else {
        lemma_round_trip_sized(v, rest);
    }
}

/// A symbol is read back from its octets, whatever follows them.
pub proof fn lemma_symbol_round_trip(text: Seq<char>, rest: Seq<u8>)
    requires
        encode_utf8(text).len() <= u32::MAX,
    ensures
        parse_symbol(wire_symbol(text) + rest) == Some((text, wire_symbol(text).len() as int)),
        wire_symbol(text).len() >= 2,
{
    lemma_payload_round_trip(0xa3, 0xb3, encode_utf8(text), rest);
    encode_utf8_valid_utf8(text);
    encode_utf8_decode_utf8(text);
}

/// The octets of some values, one after the other, start with the octets
/// of the first value.
pub proof fn lemma_wire_items_first(items: Seq<ValueModel>, n: nat)
    requires
        1 <= n <= items.len(),
    ensures
        wire_items(items, n) == wire_value(items[0]) + wire_items(items.skip(1), (n - 1) as nat),
    decreases n,
{
    let tail = items.skip(1);
    if n == 1 {
        assert(wire_items(items, 0) =~= Seq::<u8>::empty());
        assert(wire_items(tail, 0) =~= Seq::<u8>::empty());
        assert(wire_items(items, 1) =~= wire_value(items[0]) + wire_items(tail, 0));
    } else {
        lemma_wire_items_first(items, (n - 1) as nat);
        assert(tail[n - 2] == items[n - 1]);
        assert(wire_items(items, n) =~= wire_value(items[0]) + wire_items(tail, (n - 1) as nat));
    }
}

/// The octets of some entries, one after the other, start with the octets
/// of the first entry.
pub proof fn lemma_wire_entries_first(entries: Seq<(Seq<char>, ValueModel)>, n: nat)
    requires
        1 <= n <= entries.len(),
    ensures
        wire_entries(entries, n) == wire_symbol(entries[0].0) + wire_value(entries[0].1)
            + wire_entries(entries.skip(1), (n - 1) as nat),
    decreases n,
{
    let tail = entries.skip(1);
    if n == 1 {
        assert(wire_entries(entries, 0) =~= Seq::<u8>::empty());
        assert(wire_entries(tail, 0) =~= Seq::<u8>::empty());
        assert(wire_entries(entries, 1) =~= wire_symbol(entries[0].0) + wire_value(entries[0].1)
            + wire_entries(tail, 0));
    } else {
        lemma_wire_entries_first(entries, (n - 1) as nat);
        assert(tail[n - 2] == entries[n - 1]);
        assert(wire_entries(entries, n) =~= wire_symbol(entries[0].0) + wire_value(entries[0].1)
            + wire_entries(tail, (n - 1) as nat));
    }
}

/// `items_keys_unique` says that each of the first `n` items has unique
/// keys.
pub proof fn lemma_items_keys_unique(items: Seq<ValueModel>, n: nat)
    requires
        n <= items.len(),
    ensures
        items_keys_unique(items, n) <==> forall|i: int|
            0 <= i < n ==> keys_unique(#[trigger] items[i]),
    decreases n,
{
    if n > 0 {
        lemma_items_keys_unique(items, (n - 1) as nat);
    }
}

/// `entries_keys_unique` says that the value of each of the first `n`
/// entries has unique keys.
pub proof fn lemma_entries_keys_unique(entries: Seq<(Seq<char>, ValueModel)>, n: nat)
    requires
        n <= entries.len(),
    ensures
        entries_keys_unique(entries, n) <==> forall|i: int|
            0 <= i < n ==> keys_unique((#[trigger] entries[i]).1),
    decreases n,
{
    if n > 0 {
        lemma_entries_keys_unique(entries, (n - 1) as nat);
    }
}

/// Entering a key that is not there yet adds an entry at the end.
pub proof fn lemma_with_entry_fresh(
    seen: Seq<(Seq<char>, ValueModel)>,
    key: Seq<char>,
    value: ValueModel,
)
    requires
        !has_key(seen, key),
    ensures
        with_entry(seen, key, value) == seen.push((key, value)),
{
    lemma_position_of_bounds(seen, key);
}

/// A list is read back, given that its items are.
proof fn lemma_list_round_trip(items: Seq<ValueModel>, rest: Seq<u8>)
    requires
        items.len() <= u32::MAX,
        parse_items(wire_items(items, items.len()) + rest, items.len(), Seq::empty()) == Some(
            (items, wire_items(items, items.len()).len() as int),
        ),
    ensures
        parse_value(wire_value(ValueModel::List(items)) + rest) == Some(
            (ValueModel::List(items), wire_value(ValueModel::List(items)).len() as int),
        ),
{
    let n = items.len();
    let payload = wire_items(items, n);
    let written = wire_value(ValueModel::List(items)) + rest;
    let body = written.skip(1);
    if n == 0 {
        assert(items =~= Seq::<ValueModel>::empty());
    } else if n <= 255 {
        assert(written[0] == 0xc0);
        assert(body[0] == n as u8);
        assert(body.skip(1) =~= payload + rest);
    } else {
        lemma_be_u32(n as u32, payload + rest);
        assert(written[0] == 0xd0);
        assert(body =~= be_u32(n as u32) + (payload + rest));
        assert(body.skip(4) =~= payload + rest);
    }
}

/// A map is read back, given that its entries are.
proof fn lemma_map_round_trip(entries: Seq<(Seq<char>, ValueModel)>, rest: Seq<u8>)
    requires
        entries.len() <= u32::MAX,
        parse_entries(wire_entries(entries, entries.len()) + rest, entries.len(), Seq::empty())
            == Some((entries, wire_entries(entries, entries.len()).len() as int)),
    ensures
        parse_value(wire_value(ValueModel::Mapping(entries)) + rest) == Some(
            (ValueModel::Mapping(entries), wire_value(ValueModel::Mapping(entries)).len() as int),
        ),
{
    let n = entries.len();
    let payload = wire_entries(entries, n);
    let written = wire_value(ValueModel::Mapping(entries)) + rest;
    let body = written.skip(1);
    if n <= 127 {
        assert(written[0] == 0xc1);
        assert(body[0] == n as u8);
        assert(body.skip(1) =~= payload + rest);
    } else {
        lemma_be_u32(n as u32, payload + rest);
        assert(written[0] == 0xd1);
        assert(body =~= be_u32(n as u32) + (payload + rest));
        assert(body.skip(4) =~= payload + rest);
    }
}

/// An array whose items take at most 255 octets is read back, given
/// that its items are.
proof fn lemma_narrow_array_round_trip(items: Seq<ValueModel>, rest: Seq<u8>)
    requires
        wire_items(items, items.len()).len() <= 255,
        parse_items(wire_items(items, items.len()) + rest, items.len(), Seq::empty()) == Some(
            (items, wire_items(items, items.len()).len() as int),
        ),
    ensures
        parse_value(wire_value(ValueModel::Array(items)) + rest) == Some(
            (ValueModel::Array(items), wire_value(ValueModel::Array(items)).len() as int),
        ),
{
    let n = items.len();
    let payload = wire_items(items, n);
    let size = payload.len();
    let written = wire_value(ValueModel::Array(items)) + rest;
    let body = written.skip(1);
    lemma_wire_items_len(items, n);
    assert(wire_value(ValueModel::Array(items)) =~= seq![0xe0u8, size as u8, n as u8] + payload);
    assert(written[0] == 0xe0);
    assert(body[0] == size as u8);
    assert(body[1] == n as u8);
    assert(body.len() == 2 + size + rest.len());
    assert(body.skip(2) =~= payload + rest);
}

/// An array whose items take more than 255 octets is read back, given
/// that its items are.
proof fn lemma_wide_array_round_trip(items: Seq<ValueModel>, rest: Seq<u8>)
    requires
        255 < wire_items(items, items.len()).len() <= u32::MAX,
        parse_items(wire_items(items, items.len()) + rest, items.len(), Seq::empty()) == Some(
            (items, wire_items(items, items.len()).len() as int),
        ),
    ensures
        parse_value(wire_value(ValueModel::Array(items)) + rest) == Some(
            (ValueModel::Array(items), wire_value(ValueModel::Array(items)).len() as int),
        ),
{
    let n = items.len();
    let payload = wire_items(items, n);
    let size = payload.len();
    let written = wire_value(ValueModel::Array(items)) + rest;
    let body = written.skip(1);
    let tail = payload + rest;
    lemma_wire_items_len(items, n);
    lemma_be_u32(size as u32, be_u32(n as u32) + tail);
    lemma_be_u32(n as u32, tail);
    assert(wire_value(ValueModel::Array(items)) =~= seq![0xf0u8] + be_u32(size as u32) + be_u32(
        n as u32,
    ) + payload);
    assert(written[0] == 0xf0);
    assert(body =~= be_u32(size as u32) + (be_u32(n as u32) + tail));
    assert(body.skip(4) =~= be_u32(n as u32) + tail);
    assert(body.skip(8) =~= tail);
    assert(body.len() == 8 + size + rest.len());
    assert(u32_from_be(body) == size);
    assert(u32_from_be(body.skip(4)) == n);
}

/// An array is read back, given that its items are.
proof fn lemma_array_round_trip(items: Seq<ValueModel>, rest: Seq<u8>)
    requires
        wire_items(items, items.len()).len() <= u32::MAX,
        parse_items(wire_items(items, items.len()) + rest, items.len(), Seq::empty()) == Some(
            (items, wire_items(items, items.len()).len() as int),
        ),
    ensures
        parse_value(wire_value(ValueModel::Array(items)) + rest) == Some(
            (ValueModel::Array(items), wire_value(ValueModel::Array(items)).len() as int),
        ),
{
    if wire_items(items, items.len()).len() <= 255 {
        lemma_narrow_array_round_trip(items, rest);
    } else {
        lemma_wide_array_round_trip(items, rest);
    }
}

/// Reading gives back what was written: a value whose lengths fit and
/// whose maps have no key twice is read back from its octets, whatever
/// follows them, and reading takes exactly those octets.
pub proof fn lemma_round_trip(v: ValueModel, rest: Seq<u8>)
    requires
        fits(v),
        keys_unique(v),
    ensures
        parse_value(wire_value(v) + rest) == Some((v, wire_value(v).len() as int)),
    decreases v, 0nat,
{
    match v {
        ValueModel::List(items) => {
            lemma_items_round_trip(items, 0, Seq::empty(), rest);
            assert(items.skip(0) =~= items);
            assert(Seq::<ValueModel>::empty() + items =~= items);
            lemma_list_round_trip(items, rest);
        },
        ValueModel::Mapping(entries) => {
            assert(entries.skip(0) =~= entries);
            assert(Seq::<(Seq<char>, ValueModel)>::empty() + entries =~= entries);
            lemma_entries_round_trip(entries, 0, Seq::empty(), rest);
            lemma_map_round_trip(entries, rest);
        },
        ValueModel::Array(items) => {
            lemma_items_round_trip(items, 0, Seq::empty(), rest);
            assert(items.skip(0) =~= items);
            assert(Seq::<ValueModel>::empty() + items =~= items);
            lemma_array_round_trip(items, rest);
        },
        _ => {
            lemma_plain_round_trip(v, rest);
        },
    }
}

/// The values of `items` from index `from` on, written one after the
/// other, are read back in order and added to `seen`.
#[verifier::rlimit(100)]
pub proof fn lemma_items_round_trip(
    items: Seq<ValueModel>,
    from: nat,
    seen: Seq<ValueModel>,
    rest: Seq<u8>,
)
    requires
        from <= items.len(),
        items_fit(items, items.len()),
        items_keys_unique(items, items.len()),
    ensures
        parse_items(
            wire_items(items.skip(from as int), (items.len() - from) as nat) + rest,
            (items.len() - from) as nat,
            seen,
        ) == Some(
            (
                seen + items.skip(from as int),
                wire_items(items.skip(from as int), (items.len() - from) as nat).len() as int,
            ),
        ),
    decreases items, items.len() - from,
{
    let tail = items.skip(from as int);
    let n = (items.len() - from) as nat;
    if n == 0 {
        assert(seen + tail =~= seen);
        assert(wire_items(tail, 0) =~= Seq::<u8>::empty());
    } else {
        lemma_items_fit(items, items.len());
        lemma_items_keys_unique(items, items.len());
        let item = items[from as int];
        let next = items.skip(from as int + 1);
        let first = wire_value(item);
        let more = wire_items(next, (n - 1) as nat);
        lemma_wire_items_first(tail, n);
        assert(tail[0] == item);
        assert(tail.skip(1) =~= next);
        let whole = wire_items(tail, n) + rest;
        assert(whole =~= first + (more + rest));
        lemma_round_trip(item, more + rest);
        assert(whole.skip(first.len() as int) =~= more + rest);
        lemma_items_round_trip(items, from + 1, seen.push(item), rest);
        assert(seen.push(item) + next =~= seen + tail);
    }
}

/// One step of reading entries: a key, its value, and then the rest.
proof fn lemma_parse_entries_step(
    whole: Seq<u8>,
    count: nat,
    seen: Seq<(Seq<char>, ValueModel)>,
    key: Seq<char>,
    key_len: int,
    value: ValueModel,
    value_len: int,
    all: Seq<(Seq<char>, ValueModel)>,
    more: int,
)
    requires
        count > 0,
        0 < key_len,
        0 < value_len,
        key_len + value_len <= whole.len(),
        parse_symbol(whole) == Some((key, key_len)),
        parse_value(whole.skip(key_len)) == Some((value, value_len)),
        parse_entries(whole.skip(key_len + value_len), (count - 1) as nat, with_entry(seen, key, value))
            == Some((all, more)),
    ensures
        parse_entries(whole, count, seen) == Some((all, key_len + value_len + more)),
{
}

/// A key that comes after `seen` in a run of entries without a key twice
/// is not in `seen`.
proof fn lemma_next_key_is_fresh(
    seen: Seq<(Seq<char>, ValueModel)>,
    tail: Seq<(Seq<char>, ValueModel)>,
)
    requires
        tail.len() > 0,
        keys_distinct(seen + tail),
    ensures
        !has_key(seen, tail[0].0),
        with_entry(seen, tail[0].0, tail[0].1) == seen.push(tail[0]),
        seen.push(tail[0]) + tail.skip(1) == seen + tail,
{
    let joined = seen + tail;
    let key = tail[0].0;
    if has_key(seen, key) {
        let i = choose|i: int| 0 <= i < seen.len() && (#[trigger] seen[i]).0 == key;
        assert(joined[i] == seen[i]);
        assert(joined[seen.len() as int] == tail[0]);
    }
    lemma_with_entry_fresh(seen, key, tail[0].1);
    assert(seen.push(tail[0]) + tail.skip(1) =~= joined);
}

/// The entries of `entries` from index `from` on, written one after the
/// other, are read back in order and entered into `seen`, where no key
/// among them or in `seen` occurs twice.
#[verifier::rlimit(100)]
pub proof fn lemma_entries_round_trip(
    entries: Seq<(Seq<char>, ValueModel)>,
    from: nat,
    seen: Seq<(Seq<char>, ValueModel)>,
    rest: Seq<u8>,
)
    requires
        from <= entries.len(),
        entries_fit(entries, entries.len()),
        entries_keys_unique(entries, entries.len()),
        keys_distinct(seen + entries.skip(from as int)),
    ensures
        parse_entries(
            wire_entries(entries.skip(from as int), (entries.len() - from) as nat) + rest,
            (entries.len() - from) as nat,
            seen,
        ) == Some(
            (
                seen + entries.skip(from as int),
                wire_entries(entries.skip(from as int), (entries.len() - from) as nat).len() as int,
            ),
        ),
    decreases entries, entries.len() - from,
{
    let tail = entries.skip(from as int);
    let n = (entries.len() - from) as nat;
    if n == 0 {
        assert(seen + tail =~= seen);
        assert(wire_entries(tail, 0) =~= Seq::<u8>::empty());
    } else {
        lemma_entries_fit(entries, entries.len());
        lemma_entries_keys_unique(entries, entries.len());
        let entry = entries[from as int];
        let next = entries.skip(from as int + 1);
        let key_octets = wire_symbol(entry.0);
        let value_octets = wire_value(entry.1);
        let more = wire_entries(next, (n - 1) as nat);
        lemma_wire_entries_first(tail, n);
        assert(tail[0] == entry);
        assert(tail.skip(1) =~= next);
        let whole = wire_entries(tail, n) + rest;
        assert(whole =~= key_octets + (value_octets + (more + rest)));
        lemma_symbol_round_trip(entry.0, value_octets + (more + rest));
        assert(whole.skip(key_octets.len() as int) =~= value_octets + (more + rest));
        lemma_round_trip(entry.1, more + rest);
        assert(whole.skip((key_octets.len() + value_octets.len()) as int) =~= more + rest);
        lemma_next_key_is_fresh(seen, tail);
        lemma_entries_round_trip(entries, from + 1, seen.push(entry), rest);
        lemma_parse_entries_step(
            whole,
            n,
            seen,
            entry.0,
            key_octets.len() as int,
            entry.1,
            value_octets.len() as int,
            seen + tail,
            more.len() as int,
        );
        assert(wire_entries(tail, n).len() == key_octets.len() + value_octets.len() + more.len());
    }
}

/// Decoding what was encoded gives the value back, and takes all the
/// octets: for every value whose lengths fit and whose maps have no key
/// twice.
pub proof fn value_round_trip(v: ValueModel)
    requires
        fits(v),
        keys_unique(v),
    ensures
        parse_value(wire_value(v)) == Some((v, wire_value(v).len() as int)),
{
    lemma_round_trip(v, Seq::empty());
    assert(wire_value(v) + Seq::<u8>::empty() =~= wire_value(v));
}

/// Values encoded one after the other are decoded one after the other,
/// in the same order, whatever follows them.
pub proof fn stream_round_trip(items: Seq<ValueModel>, rest: Seq<u8>)
    requires
        forall|i: int| 0 <= i < items.len() ==> fits(#[trigger] items[i]) && keys_unique(items[i]),
    ensures
        parse_items(wire_items(items, items.len()) + rest, items.len(), Seq::empty()) == Some(
            (items, wire_items(items, items.len()).len() as int),
        ),
{
    lemma_items_fit(items, items.len());
    lemma_items_keys_unique(items, items.len());
    lemma_items_round_trip(items, 0, Seq::empty(), rest);
    assert(items.skip(0) =~= items);
    assert(Seq::<ValueModel>::empty() + items =~= items);
}

/// A binary, a string and a symbol of at most 255 payload octets use the
/// form with one octet of length; a longer one uses the form with four.
pub proof fn shortest_length_form(data: Seq<u8>, text: Seq<char>)
    ensures
        wire_binary(data)[0] == (if data.len() <= 255 {
            0xa0u8
        } else {
            0xb0u8
        }),
        wire_binary(data).len() == data.len() + (if data.len() <= 255 {
            2int
        } else {
            5int
        }),
        wire_string(text)[0] == (if encode_utf8(text).len() <= 255 {
            0xa1u8
        } else {
            0xb1u8
        }),
        wire_string(text).len() == encode_utf8(text).len() + (if encode_utf8(text).len() <= 255 {
            2int
        } else {
            5int
        }),
        wire_symbol(text)[0] == (if encode_utf8(text).len() <= 255 {
            0xa3u8
        } else {
            0xb3u8
        }),
        wire_symbol(text).len() == encode_utf8(text).len() + (if encode_utf8(text).len() <= 255 {
            2int
        } else {
            5int
        }),
{
}

/// The empty list is the one octet `0x45`, and the empty map the two
/// octets `0xc1 0x00`.
pub proof fn empty_list_is_one_octet()
    ensures
        wire_value(ValueModel::List(Seq::empty())) == seq![0x45u8],
        wire_value(ValueModel::Mapping(Seq::empty())) == seq![0xc1u8, 0x00u8],
{
    assert(wire_value(ValueModel::List(Seq::empty())) =~= seq![0x45u8]);
    assert(wire_value(ValueModel::Mapping(Seq::empty())) =~= seq![0xc1u8, 0x00u8]);
}

/// Nothing can be decoded from no octets.
pub proof fn empty_input_is_refused()
    ensures
        parse_value(Seq::empty()) is None,
{
}

/// A binary, a string or a symbol that is cut short, at any place, cannot
/// be decoded.
pub proof fn truncated_payload_is_refused(v: ValueModel, kept: int)
    requires
        v is Binary || v is String || v is Symbol,
        fits(v),
        0 <= kept < wire_value(v).len(),
    ensures
        parse_value(wire_value(v).take(kept)) is None,
{
    let data = match v {
        ValueModel::Binary(data) => data,
        ValueModel::String(text) => encode_utf8(text),
        ValueModel::Symbol(text) => encode_utf8(text),
        _ => Seq::empty(),
    };
    let whole = wire_value(v);
    let cut = whole.take(kept);
    if kept >= 1 {
        lemma_parse_sized_code(cut);
        let body = cut.skip(1);
        if data.len() <= 255 {
            if body.len() >= 1 {
                assert(body[0] == data.len() as u8);
            }
        } else {
            if body.len() >= 4 {
                let len = data.len() as u32;
                lemma_be_u32(len, data.take(kept - 5));
                assert(body =~= be_u32(len) + data.take(kept - 5));
            }
        }
    }
}

/// A symbol that is cut short, at any place, cannot be read as a symbol.
proof fn lemma_truncated_symbol(text: Seq<char>, kept: int)
    requires
        encode_utf8(text).len() <= u32::MAX,
        0 <= kept < wire_symbol(text).len(),
    ensures
        parse_symbol(wire_symbol(text).take(kept)) is None,
{
    let data = encode_utf8(text);
    let cut = wire_symbol(text).take(kept);
    if kept >= 1 {
        let body = cut.skip(1);
        if data.len() <= 255 {
            if body.len() >= 1 {
                assert(body[0] == data.len() as u8);
            }
        } else {
            if body.len() >= 4 {
                let len = data.len() as u32;
                lemma_be_u32(len, data.take(kept - 5));
                assert(body =~= be_u32(len) + data.take(kept - 5));
            }
        }
    }
}

/// A value of fixed width that is cut short cannot be decoded.
proof fn lemma_truncated_fixed(v: ValueModel, kept: int)
    requires
        !(v is Binary || v is String || v is Symbol || v is List || v is Mapping || v is Array),
        0 <= kept < wire_value(v).len(),
    ensures
        parse_value(wire_value(v).take(kept)) is None,
{
    let cut = wire_value(v).take(kept);
    if kept >= 1 {
        lemma_parse_fixed_code(cut);
        assert(cut.skip(1).len() == kept - 1);
    }
}

/// A list, a map or an array whose count or size is cut short cannot be
/// decoded; where the cut comes later, what is left behind the count of
/// a list or a map is the items cut short, and the count is read as it
/// was written.
proof fn lemma_truncated_header(v: ValueModel, kept: int)
    requires
        v is List || v is Mapping || v is Array,
        fits(v),
        0 <= kept < wire_value(v).len(),
    ensures
        ({
            let cut = wire_value(v).take(kept);
            match v {
                ValueModel::List(items) => {
                    let payload = wire_items(items, items.len());
                    let width: int = if items.len() <= 255 {
                        2
                    } else {
                        5
                    };
                    if items.len() == 0 || kept < width {
                        parse_value(cut) is None
                    } else {
                        parse_value(cut) == (match parse_items(
                            payload.take(kept - width),
                            items.len(),
                            Seq::empty(),
                        ) {
                            Some((all, used)) => Some((ValueModel::List(all), width + used)),
                            None => None,
                        })
                    }
                },
                ValueModel::Mapping(entries) => {
                    let payload = wire_entries(entries, entries.len());
                    let width: int = if entries.len() <= 127 {
                        2
                    } else {
                        5
                    };
                    if kept < width {
                        parse_value(cut) is None
                    } else {
                        parse_value(cut) == (match parse_entries(
                            payload.take(kept - width),
                            entries.len(),
                            Seq::empty(),
                        ) {
                            Some((all, used)) => Some((ValueModel::Mapping(all), width + used)),
                            None => None,
                        })
                    }
                },
                _ => parse_value(cut) is None,
            }
        }),
{
    let whole = wire_value(v);
    let cut = whole.take(kept);
    if kept >= 1 {
        let body = cut.skip(1);
        match v {
            ValueModel::List(items) => {
                let n = items.len();
                let payload = wire_items(items, n);
                if n == 0 {
                } else if n <= 255 {
                    if kept >= 2 {
                        assert(cut[0] == 0xc0);
                        assert(body[0] == n as u8);
                        assert(body.skip(1) =~= payload.take(kept - 2));
                    }
                } else {
                    if kept >= 5 {
                        lemma_be_u32(n as u32, payload.take(kept - 5));
                        assert(cut[0] == 0xd0);
                        assert(body =~= be_u32(n as u32) + payload.take(kept - 5));
                        assert(body.skip(4) =~= payload.take(kept - 5));
                    }
                }
            },
            ValueModel::Mapping(entries) => {
                let n = entries.len();
                let payload = wire_entries(entries, n);
                if n <= 127 {
                    if kept >= 2 {
                        assert(cut[0] == 0xc1);
                        assert(body[0] == n as u8);
                        assert(body.skip(1) =~= payload.take(kept - 2));
                    }
                } else {
                    if kept >= 5 {
                        lemma_be_u32(n as u32, payload.take(kept - 5));
                        assert(cut[0] == 0xd1);
                        assert(body =~= be_u32(n as u32) + payload.take(kept - 5));
                        assert(body.skip(4) =~= payload.take(kept - 5));
                    }
                }
            },
            ValueModel::Array(items) => {
                let n = items.len();
                let payload = wire_items(items, n);
                let size = payload.len();
                if size <= 255 {
                    if kept >= 3 {
                        assert(cut[0] == 0xe0);
                        assert(body[0] == size as u8);
                    }
                } else {
                    if kept >= 9 {
                        let tail = be_u32(n as u32) + payload.take(kept - 9);
                        lemma_be_u32(size as u32, tail);
                        assert(cut[0] == 0xf0);
                        assert(body =~= be_u32(size as u32) + tail);
                    }
                }
            },
            _ => {},
        }
    }
}

/// A value that is cut short, at any place, cannot be decoded: no value
/// is the start of another.
pub proof fn truncated_value_is_refused(v: ValueModel, kept: int)
    requires
        fits(v),
        keys_unique(v),
        0 <= kept < wire_value(v).len(),
    ensures
        parse_value(wire_value(v).take(kept)) is None,
    decreases v, 0nat,
{
    match v {
        ValueModel::List(items) => {
            lemma_truncated_header(v, kept);
            let width: int = if items.len() <= 255 {
                2
            } else {
                5
            };
            if items.len() > 0 && kept >= width {
                assert(items.skip(0) =~= items);
                lemma_truncated_items(items, 0, Seq::empty(), kept - width);
            }
        },
        ValueModel::Mapping(entries) => {
            lemma_truncated_header(v, kept);
            let width: int = if entries.len() <= 127 {
                2
            } else {
                5
            };
            if kept >= width {
                assert(entries.skip(0) =~= entries);
                assert(Seq::<(Seq<char>, ValueModel)>::empty() + entries =~= entries);
                lemma_truncated_entries(entries, 0, Seq::empty(), kept - width);
            }
        },
        ValueModel::Array(items) => {
            lemma_truncated_header(v, kept);
        },
        ValueModel::Binary(_) => {
            truncated_payload_is_refused(v, kept);
        },
        ValueModel::String(_) => {
            truncated_payload_is_refused(v, kept);
        },
        ValueModel::Symbol(_) => {
            truncated_payload_is_refused(v, kept);
        },
        _ => {
            lemma_truncated_fixed(v, kept);
        },
    }
}

/// The values of `items` from index `from` on, written one after the
/// other and cut short, cannot all be read.
#[verifier::rlimit(100)]
proof fn lemma_truncated_items(items: Seq<ValueModel>, from: nat, seen: Seq<ValueModel>, kept: int)
    requires
        from <= items.len(),
        items_fit(items, items.len()),
        items_keys_unique(items, items.len()),
        0 <= kept < wire_items(items.skip(from as int), (items.len() - from) as nat).len(),
    ensures
        parse_items(
            wire_items(items.skip(from as int), (items.len() - from) as nat).take(kept),
            (items.len() - from) as nat,
            seen,
        ) is None,
    decreases items, items.len() - from,
{
    let tail = items.skip(from as int);
    let n = (items.len() - from) as nat;
    if n == 0 {
        assert(wire_items(tail, 0) =~= Seq::<u8>::empty());
    } else {
        lemma_items_fit(items, items.len());
        lemma_items_keys_unique(items, items.len());
        let item = items[from as int];
        let next = items.skip(from as int + 1);
        let first = wire_value(item);
        let more = wire_items(next, (n - 1) as nat);
        lemma_wire_items_first(tail, n);
        assert(tail[0] == item);
        assert(tail.skip(1) =~= next);
        let cut = wire_items(tail, n).take(kept);
        if kept < first.len() {
            assert(cut =~= first.take(kept));
            truncated_value_is_refused(item, kept);
        } else {
            let left = more.take(kept - first.len());
            assert(cut =~= first + left);
            lemma_round_trip(item, left);
            lemma_wire_value_nonempty(item);
            assert(cut.skip(first.len() as int) =~= left);
            lemma_truncated_items(items, from + 1, seen.push(item), kept - first.len());
        }
    }
}

/// The entries of `entries` from index `from` on, written one after the
/// other and cut short, cannot all be read.
#[verifier::rlimit(100)]
proof fn lemma_truncated_entries(
    entries: Seq<(Seq<char>, ValueModel)>,
    from: nat,
    seen: Seq<(Seq<char>, ValueModel)>,
    kept: int,
)
    requires
        from <= entries.len(),
        entries_fit(entries, entries.len()),
        entries_keys_unique(entries, entries.len()),
        0 <= kept < wire_entries(entries.skip(from as int), (entries.len() - from) as nat).len(),
    ensures
        parse_entries(
            wire_entries(entries.skip(from as int), (entries.len() - from) as nat).take(kept),
            (entries.len() - from) as nat,
            seen,
        ) is None,
    decreases entries, entries.len() - from,
{
    let tail = entries.skip(from as int);
    let n = (entries.len() - from) as nat;
    if n == 0 {
        assert(wire_entries(tail, 0) =~= Seq::<u8>::empty());
    } else {
        lemma_entries_fit(entries, entries.len());
        lemma_entries_keys_unique(entries, entries.len());
        let entry = entries[from as int];
        let next = entries.skip(from as int + 1);
        let key_octets = wire_symbol(entry.0);
        let value_octets = wire_value(entry.1);
        let more = wire_entries(next, (n - 1) as nat);
        lemma_wire_entries_first(tail, n);
        assert(tail[0] == entry);
        assert(tail.skip(1) =~= next);
        let whole = wire_entries(tail, n);
        assert(whole =~= key_octets + (value_octets + more));
        let cut = whole.take(kept);
        if kept < key_octets.len() {
            assert(cut =~= key_octets.take(kept));
            lemma_truncated_symbol(entry.0, kept);
        } else {
            let behind_key = (value_octets + more).take(kept - key_octets.len());
            assert(cut =~= key_octets + behind_key);
            lemma_symbol_round_trip(entry.0, behind_key);
            assert(cut.skip(key_octets.len() as int) =~= behind_key);
            if kept - key_octets.len() < value_octets.len() {
                assert(behind_key =~= value_octets.take(kept - key_octets.len()));
                truncated_value_is_refused(entry.1, kept - key_octets.len());
            } else {
                let left = more.take(kept - key_octets.len() - value_octets.len());
                assert(behind_key =~= value_octets + left);
                lemma_round_trip(entry.1, left);
                lemma_wire_value_nonempty(entry.1);
                assert(cut.skip((key_octets.len() + value_octets.len()) as int) =~= left);
                lemma_truncated_entries(
                    entries,
                    from + 1,
                    with_entry(seen, entry.0, entry.1),
                    kept - key_octets.len() - value_octets.len(),
                );
            }
        }
    }
}

/// Octets that start with no type code of the format cannot be decoded.
pub proof fn unknown_code_is_refused(bytes: Seq<u8>)
    requires
        bytes.len() > 0,
        !is_type_code(bytes[0]),
    ensures
        parse_value(bytes) is None,
{
}

/// A character is decoded from the type code `0x73` and four octets
/// exactly when the octets hold a Unicode scalar value, and is then the
/// character with that value.
pub proof fn char_decoding(code: u32, rest: Seq<u8>)
    ensures
        parse_value(seq![0x73u8] + be_u32(code) + rest) == (if is_scalar(code) {
            Some((ValueModel::Char(code as char), 5int))
        } else {
            None
        }),
{
    let bytes = seq![0x73u8] + be_u32(code) + rest;
    lemma_parse_fixed_code(bytes);
    lemma_be_u32(code, rest);
    assert(bytes.skip(1) =~= be_u32(code) + rest);
}

/// A character whose four octets hold no Unicode scalar value cannot be
/// decoded.
pub proof fn non_scalar_char_is_refused(code: u32, rest: Seq<u8>)
    requires
        !is_scalar(code),
    ensures
        parse_value(seq![0x73u8] + be_u32(code) + rest) is None,
{
    let bytes = seq![0x73u8] + be_u32(code) + rest;
    lemma_parse_fixed_code(bytes);
    lemma_be_u32(code, rest);
    assert(bytes.skip(1) =~= be_u32(code) + rest);
}

/// What is decoded has no map with a key twice, whatever the octets
/// were.
pub proof fn decoded_keys_are_unique(bytes: Seq<u8>)
    ensures
        parse_value(bytes) matches Some((v, _)) ==> keys_unique(v),
    decreases bytes.len(), 0nat,
{
    if bytes.len() > 0 {
        let code = bytes[0];
        let body = bytes.skip(1);
        let none = Seq::<ValueModel>::empty();
        let no_entries = Seq::<(Seq<char>, ValueModel)>::empty();
        if code == 0xc0 {
            if body.len() >= 1 {
                lemma_parsed_items_keys_unique(body.skip(1), body[0] as nat, none);
            }
        } else if code == 0xd0 {
            if body.len() >= 4 {
                lemma_parsed_items_keys_unique(body.skip(4), u32_from_be(body) as nat, none);
            }
        } else if code == 0xc1 {
            if body.len() >= 1 {
                lemma_parsed_entries_keys_unique(body.skip(1), body[0] as nat, no_entries);
            }
        } else if code == 0xd1 {
            if body.len() >= 4 {
                lemma_parsed_entries_keys_unique(
                    body.skip(4),
                    u32_from_be(body) as nat,
                    no_entries,
                );
            }
        } else if code == 0xe0 {
            if body.len() >= 2 {
                lemma_parsed_items_keys_unique(body.skip(2), body[1] as nat, none);
            }
        } else if code == 0xf0 {
            if body.len() >= 8 {
                lemma_parsed_items_keys_unique(
                    body.skip(8),
                    u32_from_be(body.skip(4)) as nat,
                    none,
                );
            }
        }
    }
}

/// Values that are read one after the other have no map with a key
/// twice, where those read before have none.
proof fn lemma_parsed_items_keys_unique(bytes: Seq<u8>, count: nat, seen: Seq<ValueModel>)
    requires
        items_keys_unique(seen, seen.len()),
    ensures
        parse_items(bytes, count, seen) matches Some((all, _)) ==> items_keys_unique(
            all,
            all.len(),
        ),
    decreases bytes.len(), count + 1,
{
    if count > 0 {
        decoded_keys_are_unique(bytes);
        match parse_value(bytes) {
            Some((v, used)) => {
                if 0 < used <= bytes.len() {
                    let more = seen.push(v);
                    lemma_items_keys_unique(seen, seen.len());
                    assert forall|i: int| 0 <= i < more.len() implies keys_unique(
                        #[trigger] more[i],
                    ) by {
                        if i < seen.len() {
                            assert(more[i] == seen[i]);
                        }
                    }
                    lemma_items_keys_unique(more, more.len());
                    lemma_parsed_items_keys_unique(bytes.skip(used), (count - 1) as nat, more);
                }
            },
            None => {},
        }
    }
}

/// Entries that are read one after the other have no key twice and no
/// map with a key twice, where those read before have none.
proof fn lemma_parsed_entries_keys_unique(
    bytes: Seq<u8>,
    count: nat,
    seen: Seq<(Seq<char>, ValueModel)>,
)
    requires
        keys_distinct(seen),
        entries_keys_unique(seen, seen.len()),
    ensures
        parse_entries(bytes, count, seen) matches Some((all, _)) ==> keys_distinct(all)
            && entries_keys_unique(all, all.len()),
    decreases bytes.len(), count + 1,
{
    if count > 0 {
        match parse_symbol(bytes) {
            Some((key, key_len)) => {
                if 0 < key_len <= bytes.len() {
                    decoded_keys_are_unique(bytes.skip(key_len));
                    match parse_value(bytes.skip(key_len)) {
                        Some((v, used)) => {
                            if 0 < used <= bytes.len() - key_len {
                                let more = with_entry(seen, key, v);
                                crate::types::lemma_with_entry_distinct(seen, key, v);
                                lemma_position_of_bounds(seen, key);
                                lemma_entries_keys_unique(seen, seen.len());
                                assert forall|i: int| 0 <= i < more.len() implies keys_unique(
                                    (#[trigger] more[i]).1,
                                ) by {
                                    if i != crate::types::position_of(seen, key) {
                                        assert(more[i] == seen[i]);
                                    }
                                }
                                lemma_entries_keys_unique(more, more.len());
                                lemma_parsed_entries_keys_unique(
                                    bytes.skip(key_len + used),
                                    (count - 1) as nat,
                                    more,
                                );
                            }
                        },
                        None => {},
                    }
                }
            },
            None => {},
        }
    }
}

} // verus!
