//! The wire format of AMQP values as mathematics: which octets stand for a
//! value, and which value a run of octets stands for.
//!
//! A value is a type code and a payload. Numbers are written most
//! significant octet first. Binaries, strings and symbols carry their
//! length in one octet or in four. Lists and maps carry a count of their
//! items and no size in octets; an array carries the size of its items in
//! octets and then their count.

use vstd::prelude::*;
use vstd::utf8::*;
use crate::types::{keys_distinct, with_entry, ValueModel};

verus! {

/// `v` in two octets, most significant first.
pub open spec fn be_u16(v: u16) -> Seq<u8> {
    seq![(v >> 8) as u8, (v & 0xff) as u8]
}

/// `v` in four octets, most significant first.
pub open spec fn be_u32(v: u32) -> Seq<u8> {
    seq![
        (v >> 24) as u8,
        ((v >> 16) & 0xff) as u8,
        ((v >> 8) & 0xff) as u8,
        (v & 0xff) as u8,
    ]
}

/// `v` in eight octets, most significant first.
pub open spec fn be_u64(v: u64) -> Seq<u8> {
    be_u32((v >> 32) as u32) + be_u32((v & 0xffff_ffff) as u32)
}

/// `v` in sixteen octets, most significant first.
pub open spec fn be_u128(v: u128) -> Seq<u8> {
    be_u64((v >> 64) as u64) + be_u64((v & 0xffff_ffff_ffff_ffff) as u64)
}

/// The number that the first two octets of `s` hold, most significant first.
pub open spec fn u16_from_be(s: Seq<u8>) -> u16 {
    ((s[0] as u16) << 8) | (s[1] as u16)
}

/// The number that the first four octets of `s` hold, most significant first.
pub open spec fn u32_from_be(s: Seq<u8>) -> u32 {
    ((s[0] as u32) << 24) | ((s[1] as u32) << 16) | ((s[2] as u32) << 8) | (s[3] as u32)
}

/// The number that the first eight octets of `s` hold, most significant first.
pub open spec fn u64_from_be(s: Seq<u8>) -> u64 {
    ((u32_from_be(s) as u64) << 32) | (u32_from_be(s.skip(4)) as u64)
}

/// The number that the first sixteen octets of `s` hold, most significant first.
pub open spec fn u128_from_be(s: Seq<u8>) -> u128 {
    ((u64_from_be(s) as u128) << 64) | (u64_from_be(s.skip(8)) as u128)
}

/// Reading two octets written by `be_u16` gives the number back, whatever
/// follows them.
pub proof fn lemma_be_u16(v: u16, rest: Seq<u8>)
    ensures
        be_u16(v).len() == 2,
        u16_from_be(be_u16(v) + rest) == v,
{
    let s = be_u16(v) + rest;
    assert(s[0] == (v >> 8) as u8);
    assert(s[1] == (v & 0xff) as u8);
    assert(((((v >> 8) as u8) as u16) << 8) | (((v & 0xff) as u8) as u16) == v) by (bit_vector);
}

/// Reading four octets written by `be_u32` gives the number back, whatever
/// follows them.
pub proof fn lemma_be_u32(v: u32, rest: Seq<u8>)
    ensures
        be_u32(v).len() == 4,
        u32_from_be(be_u32(v) + rest) == v,
{
    let s = be_u32(v) + rest;
    assert(s[0] == (v >> 24) as u8);
    assert(s[1] == ((v >> 16) & 0xff) as u8);
    assert(s[2] == ((v >> 8) & 0xff) as u8);
    assert(s[3] == (v & 0xff) as u8);
    assert(((((v >> 24) as u8) as u32) << 24) | (((((v >> 16) & 0xff) as u8) as u32) << 16) | (((((v
        >> 8) & 0xff) as u8) as u32) << 8) | (((v & 0xff) as u8) as u32) == v) by (bit_vector);
}

/// Reading eight octets written by `be_u64` gives the number back, whatever
/// follows them.
pub proof fn lemma_be_u64(v: u64, rest: Seq<u8>)
    ensures
        be_u64(v).len() == 8,
        u64_from_be(be_u64(v) + rest) == v,
{
    let high = (v >> 32) as u32;
    let low = (v & 0xffff_ffff) as u32;
    let s = be_u64(v) + rest;
    lemma_be_u32(high, be_u32(low) + rest);
    lemma_be_u32(low, rest);
    assert(s =~= be_u32(high) + (be_u32(low) + rest));
    assert(s.skip(4) =~= be_u32(low) + rest);
    assert((((v >> 32) as u32 as u64) << 32) | ((v & 0xffff_ffff) as u32 as u64) == v)
        by (bit_vector);
}

/// Reading sixteen octets written by `be_u128` gives the number back,
/// whatever follows them.
pub proof fn lemma_be_u128(v: u128, rest: Seq<u8>)
    ensures
        be_u128(v).len() == 16,
        u128_from_be(be_u128(v) + rest) == v,
{
    let high = (v >> 64) as u64;
    let low = (v & 0xffff_ffff_ffff_ffff) as u64;
    let s = be_u128(v) + rest;
    lemma_be_u64(high, be_u64(low) + rest);
    lemma_be_u64(low, rest);
    assert(s =~= be_u64(high) + (be_u64(low) + rest));
    assert(s.skip(8) =~= be_u64(low) + rest);
    assert((((v >> 64) as u64 as u128) << 64) | ((v & 0xffff_ffff_ffff_ffff) as u64 as u128) == v)
        by (bit_vector);
}

/// The type code and length of a payload of `len` octets: code `code8`
/// and one octet of length where that is enough, else code `code32` and
/// four octets of length.
pub open spec fn sized_header(code8: u8, code32: u8, len: nat) -> Seq<u8> {
    if len <= 255 {
        seq![code8, len as u8]
    } else {
        seq![code32] + be_u32(len as u32)
    }
}

/// The type code and count of a list of `count` items.
pub open spec fn list_header(count: nat) -> Seq<u8> {
    if count == 0 {
        seq![0x45u8]
    } else if count <= 255 {
        seq![0xc0u8, count as u8]
    } else {
        seq![0xd0u8] + be_u32(count as u32)
    }
}

/// The type code and count of a map of `count` entries.
pub open spec fn map_header(count: nat) -> Seq<u8> {
    if count <= 127 {
        seq![0xc1u8, count as u8]
    } else {
        seq![0xd1u8] + be_u32(count as u32)
    }
}

/// The type code, payload size and count of an array of `count` items
/// whose encodings take `size` octets together.
pub open spec fn array_header(size: nat, count: nat) -> Seq<u8> {
    if size <= 255 {
        seq![0xe0u8, size as u8, count as u8]
    } else {
        seq![0xf0u8] + be_u32(size as u32) + be_u32(count as u32)
    }
}

/// The octets of a binary value.
pub open spec fn wire_binary(data: Seq<u8>) -> Seq<u8> {
    sized_header(0xa0, 0xb0, data.len()) + data
}

/// The octets of a string value.
pub open spec fn wire_string(text: Seq<char>) -> Seq<u8> {
    sized_header(0xa1, 0xb1, encode_utf8(text).len()) + encode_utf8(text)
}

/// The octets of a symbol.
pub open spec fn wire_symbol(text: Seq<char>) -> Seq<u8> {
    sized_header(0xa3, 0xb3, encode_utf8(text).len()) + encode_utf8(text)
}

/// The octets that stand for a value: its type code, then its payload.
pub open spec fn wire_value(v: ValueModel) -> Seq<u8>
    decreases v, 0nat,
{
    match v {
        ValueModel::Null => seq![0x40u8],
        ValueModel::Boolean(b) => if b {
            seq![0x41u8]
        } else {
            seq![0x42u8]
        },
        ValueModel::Ubyte(n) => seq![0x50u8, n],
        ValueModel::Ushort(n) => seq![0x60u8] + be_u16(n),
        ValueModel::Uint(n) => seq![0x70u8] + be_u32(n),
        ValueModel::Ulong(n) => seq![0x80u8] + be_u64(n),
        ValueModel::Byte(n) => seq![0x51u8, n as u8],
        ValueModel::Short(n) => seq![0x61u8] + be_u16(n as u16),
        ValueModel::Int(n) => seq![0x71u8] + be_u32(n as u32),
        ValueModel::Long(n) => seq![0x81u8] + be_u64(n as u64),
        ValueModel::Float(bits) => seq![0x72u8] + be_u32(bits),
        ValueModel::Double(bits) => seq![0x82u8] + be_u64(bits),
        ValueModel::Decimal32(bits) => seq![0x74u8] + be_u32(bits),
        ValueModel::Decimal64(bits) => seq![0x84u8] + be_u64(bits),
        ValueModel::Decimal128(bits) => seq![0x94u8] + be_u128(bits),
        ValueModel::Char(c) => seq![0x73u8] + be_u32(c as u32),
        ValueModel::Timestamp(t) => seq![0x83u8] + be_u64(t as u64),
        ValueModel::Uuid(bits) => seq![0x98u8] + be_u128(bits),
        ValueModel::Binary(data) => wire_binary(data),
        ValueModel::String(text) => wire_string(text),
        ValueModel::Symbol(text) => wire_symbol(text),
        ValueModel::List(items) => list_header(items.len()) + wire_items(items, items.len()),
        ValueModel::Mapping(entries) => map_header(entries.len()) + wire_entries(
            entries,
            entries.len(),
        ),
        ValueModel::Array(items) => array_header(
            wire_items(items, items.len()).len(),
            items.len(),
        ) + wire_items(items, items.len()),
    }
}

/// The octets of the first `n` of `items`, one value after the other.
pub open spec fn wire_items(items: Seq<ValueModel>, n: nat) -> Seq<u8>
    decreases items, n,
{
    if n == 0 || n > items.len() {
        Seq::empty()
    } else {
        wire_items(items, (n - 1) as nat) + wire_value(items[n - 1])
    }
}

/// The octets of the first `n` of `entries`: each key as a symbol, then
/// its value.
pub open spec fn wire_entries(entries: Seq<(Seq<char>, ValueModel)>, n: nat) -> Seq<u8>
    decreases entries, n,
{
    if n == 0 || n > entries.len() {
        Seq::empty()
    } else {
        wire_entries(entries, (n - 1) as nat) + wire_symbol(entries[n - 1].0) + wire_value(
            entries[n - 1].1,
        )
    }
}

/// Every length in `v`, at any depth, fits the four octets that the wire
/// format has for it.
pub open spec fn fits(v: ValueModel) -> bool
    decreases v, 0nat,
{
    match v {
        ValueModel::Binary(data) => data.len() <= u32::MAX,
        ValueModel::String(text) => encode_utf8(text).len() <= u32::MAX,
        ValueModel::Symbol(text) => encode_utf8(text).len() <= u32::MAX,
        ValueModel::List(items) => items.len() <= u32::MAX && items_fit(items, items.len()),
        ValueModel::Mapping(entries) => entries.len() <= u32::MAX && entries_fit(
            entries,
            entries.len(),
        ),
        ValueModel::Array(items) => items.len() <= u32::MAX && items_fit(items, items.len())
            && wire_items(items, items.len()).len() <= u32::MAX,
        _ => true,
    }
}

/// `fits` holds of each of the first `n` of `items`.
pub open spec fn items_fit(items: Seq<ValueModel>, n: nat) -> bool
    decreases items, n,
{
    if n == 0 || n > items.len() {
        true
    } else {
        items_fit(items, (n - 1) as nat) && fits(items[n - 1])
    }
}

/// Each of the first `n` of `entries` has a key and a value that fit.
pub open spec fn entries_fit(entries: Seq<(Seq<char>, ValueModel)>, n: nat) -> bool
    decreases entries, n,
{
    if n == 0 || n > entries.len() {
        true
    } else {
        entries_fit(entries, (n - 1) as nat) && encode_utf8(entries[n - 1].0).len() <= u32::MAX
            && fits(entries[n - 1].1)
    }
}

/// No map in `v`, at any depth, has a key twice.
pub open spec fn keys_unique(v: ValueModel) -> bool
    decreases v, 0nat,
{
    match v {
        ValueModel::List(items) => items_keys_unique(items, items.len()),
        ValueModel::Mapping(entries) => keys_distinct(entries) && entries_keys_unique(
            entries,
            entries.len(),
        ),
        ValueModel::Array(items) => items_keys_unique(items, items.len()),
        _ => true,
    }
}

/// `keys_unique` holds of each of the first `n` of `items`.
pub open spec fn items_keys_unique(items: Seq<ValueModel>, n: nat) -> bool
    decreases items, n,
{
    if n == 0 || n > items.len() {
        true
    } else {
        items_keys_unique(items, (n - 1) as nat) && keys_unique(items[n - 1])
    }
}

/// `keys_unique` holds of the value of each of the first `n` of `entries`.
pub open spec fn entries_keys_unique(entries: Seq<(Seq<char>, ValueModel)>, n: nat) -> bool
    decreases entries, n,
{
    if n == 0 || n > entries.len() {
        true
    } else {
        entries_keys_unique(entries, (n - 1) as nat) && keys_unique(entries[n - 1].1)
    }
}

/// The payload behind a one-octet length at the start of `body`, where
/// `body` holds all of it.
pub open spec fn payload8(body: Seq<u8>) -> Option<Seq<u8>> {
    if body.len() >= 1 && body.len() - 1 >= body[0] {
        Some(body.subrange(1, 1 + body[0]))
    } else {
        None
    }
}

/// The payload behind a four-octet length at the start of `body`, where
/// `body` holds all of it.
pub open spec fn payload32(body: Seq<u8>) -> Option<Seq<u8>> {
    if body.len() >= 4 && body.len() - 4 >= u32_from_be(body) {
        Some(body.subrange(4, 4 + u32_from_be(body)))
    } else {
        None
    }
}

/// The payload of a length-prefixed value whose type code says whether
/// the length has one octet (`wide` false) or four.
pub open spec fn payload(wide: bool, body: Seq<u8>) -> Option<Seq<u8>> {
    if wide {
        payload32(body)
    } else {
        payload8(body)
    }
}

/// The number of octets that a length-prefixed value takes, type code
/// included.
pub open spec fn sized_len(wide: bool, data: Seq<u8>) -> int {
    if wide {
        5 + data.len() as int
    } else {
        2 + data.len() as int
    }
}

/// The symbol at the start of `bytes` and the number of octets it takes,
/// or `None` where `bytes` does not start with a whole symbol.
pub open spec fn parse_symbol(bytes: Seq<u8>) -> Option<(Seq<char>, int)> {
    if bytes.len() == 0 {
        None
    } else if bytes[0] == 0xa3 || bytes[0] == 0xb3 {
        let wide = bytes[0] == 0xb3;
        match payload(wide, bytes.skip(1)) {
            Some(data) => if valid_utf8(data) {
                Some((decode_utf8(data), sized_len(wide, data)))
            } else {
                None
            },
            None => None,
        }
    } else {
        None
    }
}

/// True for the octets that are type codes of this format.
pub open spec fn is_type_code(code: u8) -> bool {
    ||| code == 0x40
    ||| code == 0x41
    ||| code == 0x42
    ||| code == 0x56
    ||| code == 0x50
    ||| code == 0x60
    ||| code == 0x70
    ||| code == 0x80
    ||| code == 0x51
    ||| code == 0x61
    ||| code == 0x71
    ||| code == 0x81
    ||| code == 0x72
    ||| code == 0x82
    ||| code == 0x74
    ||| code == 0x84
    ||| code == 0x94
    ||| code == 0x73
    ||| code == 0x83
    ||| code == 0x98
    ||| code == 0xa0
    ||| code == 0xb0
    ||| code == 0xa1
    ||| code == 0xb1
    ||| code == 0xa3
    ||| code == 0xb3
    ||| code == 0x45
    ||| code == 0xc0
    ||| code == 0xd0
    ||| code == 0xc1
    ||| code == 0xd1
    ||| code == 0xe0
    ||| code == 0xf0
}

/// The value of fixed width with type code `code` whose payload is at the
/// start of `body`, or `None` where `code` is no fixed-width code, `body`
/// is too short or the payload is not allowed.
pub open spec fn parse_fixed(code: u8, body: Seq<u8>) -> Option<(ValueModel, int)> {
    if code == 0x40 {
        Some((ValueModel::Null, 1))
    } else if code == 0x41 {
        Some((ValueModel::Boolean(true), 1))
    } else if code == 0x42 {
        Some((ValueModel::Boolean(false), 1))
    } else if code == 0x56 {
        if body.len() >= 1 && body[0] == 0 {
            Some((ValueModel::Boolean(false), 2))
        } else if body.len() >= 1 && body[0] == 1 {
            Some((ValueModel::Boolean(true), 2))
        } else {
            None
        }
    } else if code == 0x50 && body.len() >= 1 {
        Some((ValueModel::Ubyte(body[0]), 2))
    } else if code == 0x51 && body.len() >= 1 {
        Some((ValueModel::Byte(body[0] as i8), 2))
    } else if code == 0x60 && body.len() >= 2 {
        Some((ValueModel::Ushort(u16_from_be(body)), 3))
    } else if code == 0x61 && body.len() >= 2 {
        Some((ValueModel::Short(u16_from_be(body) as i16), 3))
    } else if code == 0x70 && body.len() >= 4 {
        Some((ValueModel::Uint(u32_from_be(body)), 5))
    } else if code == 0x71 && body.len() >= 4 {
        Some((ValueModel::Int(u32_from_be(body) as i32), 5))
    } else if code == 0x72 && body.len() >= 4 {
        Some((ValueModel::Float(u32_from_be(body)), 5))
    } else if code == 0x74 && body.len() >= 4 {
        Some((ValueModel::Decimal32(u32_from_be(body)), 5))
    } else if code == 0x73 && body.len() >= 4 && is_scalar(u32_from_be(body)) {
        Some((ValueModel::Char(u32_from_be(body) as char), 5))
    } else if code == 0x80 && body.len() >= 8 {
        Some((ValueModel::Ulong(u64_from_be(body)), 9))
    } else if code == 0x81 && body.len() >= 8 {
        Some((ValueModel::Long(u64_from_be(body) as i64), 9))
    } else if code == 0x82 && body.len() >= 8 {
        Some((ValueModel::Double(u64_from_be(body)), 9))
    } else if code == 0x83 && body.len() >= 8 {
        Some((ValueModel::Timestamp(u64_from_be(body) as i64), 9))
    } else if code == 0x84 && body.len() >= 8 {
        Some((ValueModel::Decimal64(u64_from_be(body)), 9))
    } else if code == 0x94 && body.len() >= 16 {
        Some((ValueModel::Decimal128(u128_from_be(body)), 17))
    } else if code == 0x98 && body.len() >= 16 {
        Some((ValueModel::Uuid(u128_from_be(body)), 17))
    } else {
        None
    }
}

/// The binary, string or symbol value with type code `code` whose length
/// and payload are at the start of `body`.
pub open spec fn parse_sized(code: u8, body: Seq<u8>) -> Option<(ValueModel, int)> {
    let wide = code >= 0xb0;
    match payload(wide, body) {
        Some(data) => if code == 0xa0 || code == 0xb0 {
            Some((ValueModel::Binary(data), sized_len(wide, data)))
        } else if !valid_utf8(data) {
            None
        } else if code == 0xa1 || code == 0xb1 {
            Some((ValueModel::String(decode_utf8(data)), sized_len(wide, data)))
        } else {
            Some((ValueModel::Symbol(decode_utf8(data)), sized_len(wide, data)))
        },
        None => None,
    }
}

/// The value at the start of `bytes` and the number of octets it takes,
/// or `None` where `bytes` does not start with a whole value.
pub open spec fn parse_value(bytes: Seq<u8>) -> Option<(ValueModel, int)>
    decreases bytes.len(), 0nat,
{
    if bytes.len() == 0 {
        None
    } else {
        let code = bytes[0];
        let body = bytes.skip(1);
        if code == 0xa0 || code == 0xb0 || code == 0xa1 || code == 0xb1 || code == 0xa3 || code
            == 0xb3 {
            parse_sized(code, body)
        } else if code == 0x45 {
            Some((ValueModel::List(Seq::empty()), 1))
        } else if code == 0xc0 {
            if body.len() < 1 {
                None
            } else {
                match parse_items(body.skip(1), body[0] as nat, Seq::empty()) {
                    Some((items, used)) => Some((ValueModel::List(items), 2 + used)),
                    None => None,
                }
            }
        } else if code == 0xd0 {
            if body.len() < 4 {
                None
            } else {
                match parse_items(body.skip(4), u32_from_be(body) as nat, Seq::empty()) {
                    Some((items, used)) => Some((ValueModel::List(items), 5 + used)),
                    None => None,
                }
            }
        } else if code == 0xc1 {
            if body.len() < 1 {
                None
            } else {
                match parse_entries(body.skip(1), body[0] as nat, Seq::empty()) {
                    Some((entries, used)) => Some((ValueModel::Mapping(entries), 2 + used)),
                    None => None,
                }
            }
        } else if code == 0xd1 {
            if body.len() < 4 {
                None
            } else {
                match parse_entries(body.skip(4), u32_from_be(body) as nat, Seq::empty()) {
                    Some((entries, used)) => Some((ValueModel::Mapping(entries), 5 + used)),
                    None => None,
                }
            }
        } else if code == 0xe0 {
            if body.len() < 2 || body.len() - 2 < body[0] {
                None
            } else {
                match parse_items(body.skip(2), body[1] as nat, Seq::empty()) {
                    Some((items, used)) => Some((ValueModel::Array(items), 3 + used)),
                    None => None,
                }
            }
        } else if code == 0xf0 {
            if body.len() < 8 || body.len() - 8 < u32_from_be(body) {
                None
            } else {
                match parse_items(body.skip(8), u32_from_be(body.skip(4)) as nat, Seq::empty()) {
                    Some((items, used)) => Some((ValueModel::Array(items), 9 + used)),
                    None => None,
                }
            }
        } else {
            parse_fixed(code, body)
        }
    }
}

/// `count` values read one after the other from the start of `bytes`,
/// added to `seen`, and the number of octets they take together.
pub open spec fn parse_items(bytes: Seq<u8>, count: nat, seen: Seq<ValueModel>) -> Option<
    (Seq<ValueModel>, int),
>
    decreases bytes.len(), count + 1,
{
    if count == 0 {
        Some((seen, 0))
    } else {
        match parse_value(bytes) {
            Some((v, used)) => if 0 < used <= bytes.len() {
                match parse_items(bytes.skip(used), (count - 1) as nat, seen.push(v)) {
                    Some((all, more)) => Some((all, used + more)),
                    None => None,
                }
            } else {
                None
            },
            None => None,
        }
    }
}

/// `count` entries read one after the other from the start of `bytes`,
/// each a symbol and then a value, entered into `seen` in that order, and
/// the number of octets they take together.
pub open spec fn parse_entries(
    bytes: Seq<u8>,
    count: nat,
    seen: Seq<(Seq<char>, ValueModel)>,
) -> Option<(Seq<(Seq<char>, ValueModel)>, int)>
    decreases bytes.len(), count + 1,
{
    if count == 0 {
        Some((seen, 0))
    } else {
        match parse_symbol(bytes) {
            Some((key, key_len)) => if 0 < key_len <= bytes.len() {
                match parse_value(bytes.skip(key_len)) {
                    Some((v, used)) => if 0 < used <= bytes.len() - key_len {
                        match parse_entries(
                            bytes.skip(key_len + used),
                            (count - 1) as nat,
                            with_entry(seen, key, v),
                        ) {
                            Some((all, more)) => Some((all, key_len + used + more)),
                            None => None,
                        }
                    } else {
                        None
                    },
                    None => None,
                }
            } else {
                None
            },
            None => None,
        }
    }
}

/// A result of parsing, with `by` more octets counted as taken.
pub open spec fn advanced<T>(parsed: Option<(T, int)>, by: int) -> Option<(T, int)> {
    match parsed {
        Some((what, used)) => Some((what, used + by)),
        None => None,
    }
}

/// What was parsed takes at least one octet and no more than there are.
pub proof fn lemma_parse_value_bounds(bytes: Seq<u8>)
    ensures
        parse_value(bytes) matches Some((_, used)) ==> 0 < used <= bytes.len(),
    decreases bytes.len(), 0nat,
{
    if bytes.len() > 0 {
        let code = bytes[0];
        let body = bytes.skip(1);
        if code == 0xc0 {
            if body.len() >= 1 {
                lemma_parse_items_bounds(body.skip(1), body[0] as nat, Seq::empty());
            }
        } else if code == 0xd0 {
            if body.len() >= 4 {
                lemma_parse_items_bounds(body.skip(4), u32_from_be(body) as nat, Seq::empty());
            }
        } else if code == 0xc1 {
            if body.len() >= 1 {
                lemma_parse_entries_bounds(body.skip(1), body[0] as nat, Seq::empty());
            }
        } else if code == 0xd1 {
            if body.len() >= 4 {
                lemma_parse_entries_bounds(body.skip(4), u32_from_be(body) as nat, Seq::empty());
            }
        } else if code == 0xe0 {
            if body.len() >= 2 {
                lemma_parse_items_bounds(body.skip(2), body[1] as nat, Seq::empty());
            }
        } else if code == 0xf0 {
            if body.len() >= 8 {
                lemma_parse_items_bounds(
                    body.skip(8),
                    u32_from_be(body.skip(4)) as nat,
                    Seq::empty(),
                );
            }
        }
    }
}

/// The values that were parsed take no more octets than there are.
pub proof fn lemma_parse_items_bounds(bytes: Seq<u8>, count: nat, seen: Seq<ValueModel>)
    ensures
        parse_items(bytes, count, seen) matches Some((all, used)) ==> 0 <= used <= bytes.len()
            && all.len() == seen.len() + count,
    decreases bytes.len(), count + 1,
{
    if count > 0 {
        lemma_parse_value_bounds(bytes);
        match parse_value(bytes) {
            Some((v, used)) => {
                if 0 < used <= bytes.len() {
                    lemma_parse_items_bounds(bytes.skip(used), (count - 1) as nat, seen.push(v));
                }
            },
            None => {},
        }
    }
}

/// The entries that were parsed take no more octets than there are.
pub proof fn lemma_parse_entries_bounds(
    bytes: Seq<u8>,
    count: nat,
    seen: Seq<(Seq<char>, ValueModel)>,
)
    ensures
        parse_entries(bytes, count, seen) matches Some((_, used)) ==> 0 <= used <= bytes.len(),
    decreases bytes.len(), count + 1,
{
    if count > 0 {
        match parse_symbol(bytes) {
            Some((key, key_len)) => {
                if 0 < key_len <= bytes.len() {
                    lemma_parse_value_bounds(bytes.skip(key_len));
                    match parse_value(bytes.skip(key_len)) {
                        Some((v, used)) => {
                            if 0 < used <= bytes.len() - key_len {
                                lemma_parse_entries_bounds(
                                    bytes.skip(key_len + used),
                                    (count - 1) as nat,
                                    with_entry(seen, key, v),
                                );
                            }
                        },
                        None => {},
                    }
                }
            },
            None => {},
        }
    }
}

/// A symbol that was parsed takes at least two octets and no more than
/// there are.
pub proof fn lemma_parse_symbol_bounds(bytes: Seq<u8>)
    ensures
        parse_symbol(bytes) matches Some((_, used)) ==> 2 <= used <= bytes.len(),
{
}

/// `items_fit` says that each of the first `n` items fits.
pub proof fn lemma_items_fit(items: Seq<ValueModel>, n: nat)
    requires
        n <= items.len(),
    ensures
        items_fit(items, n) <==> forall|i: int| 0 <= i < n ==> fits(#[trigger] items[i]),
    decreases n,
{
    if n > 0 {
        lemma_items_fit(items, (n - 1) as nat);
    }
}

/// `entries_fit` says that each of the first `n` entries fits, key and value.
pub proof fn lemma_entries_fit(entries: Seq<(Seq<char>, ValueModel)>, n: nat)
    requires
        n <= entries.len(),
    ensures
        entries_fit(entries, n) <==> forall|i: int|
            0 <= i < n ==> encode_utf8((#[trigger] entries[i]).0).len() <= u32::MAX && fits(
                entries[i].1,
            ),
    decreases n,
{
    if n > 0 {
        lemma_entries_fit(entries, (n - 1) as nat);
    }
}

/// Every value takes at least one octet on the wire.
pub proof fn lemma_wire_value_nonempty(v: ValueModel)
    ensures
        wire_value(v).len() >= 1,
{
}

/// `n` values take at least `n` octets on the wire, and more values take
/// no fewer.
pub proof fn lemma_wire_items_len(items: Seq<ValueModel>, n: nat)
    requires
        n <= items.len(),
    ensures
        wire_items(items, n).len() >= n,
    decreases n,
{
    if n > 0 {
        lemma_wire_items_len(items, (n - 1) as nat);
        lemma_wire_value_nonempty(items[n - 1]);
    }
}

} // verus!
