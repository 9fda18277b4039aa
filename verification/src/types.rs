//! The AMQP 1.0 value types and their mathematical model.

use vstd::prelude::*;
use crate::condition::AmqpCondition;

verus! {

/// Mathematical model of an AMQP value: what a value is, apart from how it
/// is held in memory. Floats are their bit patterns, a UUID is its 128 bits,
/// text is a sequence of characters and a map is the sequence of its entries
/// in insertion order.
pub enum ValueModel {
    Null,
    Boolean(bool),
    Ubyte(u8),
    Ushort(u16),
    Uint(u32),
    Ulong(u64),
    Byte(i8),
    Short(i16),
    Int(i32),
    Long(i64),
    Float(u32),
    Double(u64),
    Decimal32(u32),
    Decimal64(u64),
    Decimal128(u128),
    Char(char),
    Timestamp(i64),
    Uuid(u128),
    Binary(Seq<u8>),
    String(Seq<char>),
    Symbol(Seq<char>),
    List(Seq<ValueModel>),
    Mapping(Seq<(Seq<char>, ValueModel)>),
    Array(Seq<ValueModel>),
}

/// AMQP symbol: a short identifier, ASCII by convention.
#[derive(Debug, PartialEq, Eq, Hash)]
pub struct AmqpSymbol(pub String);

impl View for AmqpSymbol {
    type V = Seq<char>;

    open spec fn view(&self) -> Seq<char> {
        self.0@
    }
}

/// AMQP list: an ordered sequence of values.
pub type AmqpList = Vec<AmqpValue>;

/// AMQP map from symbols to values. No key occurs twice; entries keep the
/// order in which their keys were first inserted. Two maps are equal
/// where they hold the same keys with the same values, in whatever order.
#[derive(Debug)]
pub struct AmqpMap {
    entries: Vec<(AmqpSymbol, AmqpValue)>,
}

/// AMQP value.
#[derive(Debug, PartialEq)]
pub enum AmqpValue {
    Null,
    Boolean(bool),
    Ubyte(u8),
    Ushort(u16),
    Uint(u32),
    Ulong(u64),
    Byte(i8),
    Short(i16),
    Int(i32),
    Long(i64),
    /// IEEE-754 single precision, held as its bit pattern.
    Float(u32),
    /// IEEE-754 double precision, held as its bit pattern.
    Double(u64),
    Decimal32(u32),
    Decimal64(u64),
    Decimal128(u128),
    Char(char),
    Timestamp(i64),
    /// UUID, held as its 128 bits in network order.
    Uuid(u128),
    Binary(Vec<u8>),
    String(String),
    Symbol(AmqpSymbol),
    List(AmqpList),
    Mapping(AmqpMap),
    Array(Vec<AmqpValue>),
}

impl View for AmqpMap {
    type V = Seq<(Seq<char>, ValueModel)>;

    /// The entries in insertion order, each as its key's text and its
    /// value's model.
    closed spec fn view(&self) -> Seq<(Seq<char>, ValueModel)>
        decreases self,
    {
        Seq::new(
            self.entries@.len(),
            |i: int|
                if 0 <= i < self.entries@.len() {
                    (self.entries[i].0@, self.entries[i].1@)
                } else {
                    (Seq::empty(), ValueModel::Null)
                },
        )
    }
}

impl View for AmqpValue {
    type V = ValueModel;

    open spec fn view(&self) -> ValueModel
        decreases self,
    {
        match self {
            AmqpValue::Null => ValueModel::Null,
            AmqpValue::Boolean(b) => ValueModel::Boolean(*b),
            AmqpValue::Ubyte(n) => ValueModel::Ubyte(*n),
            AmqpValue::Ushort(n) => ValueModel::Ushort(*n),
            AmqpValue::Uint(n) => ValueModel::Uint(*n),
            AmqpValue::Ulong(n) => ValueModel::Ulong(*n),
            AmqpValue::Byte(n) => ValueModel::Byte(*n),
            AmqpValue::Short(n) => ValueModel::Short(*n),
            AmqpValue::Int(n) => ValueModel::Int(*n),
            AmqpValue::Long(n) => ValueModel::Long(*n),
            AmqpValue::Float(n) => ValueModel::Float(*n),
            AmqpValue::Double(n) => ValueModel::Double(*n),
            AmqpValue::Decimal32(n) => ValueModel::Decimal32(*n),
            AmqpValue::Decimal64(n) => ValueModel::Decimal64(*n),
            AmqpValue::Decimal128(n) => ValueModel::Decimal128(*n),
            AmqpValue::Char(c) => ValueModel::Char(*c),
            AmqpValue::Timestamp(t) => ValueModel::Timestamp(*t),
            AmqpValue::Uuid(u) => ValueModel::Uuid(*u),
            AmqpValue::Binary(data) => ValueModel::Binary(data@),
            AmqpValue::String(s) => ValueModel::String(s@),
            AmqpValue::Symbol(s) => ValueModel::Symbol(s@),
            AmqpValue::List(list) => ValueModel::List(
                Seq::new(
                    list@.len(),
                    |i: int| if 0 <= i < list@.len() { list[i]@ } else { ValueModel::Null },
                ),
            ),
            AmqpValue::Mapping(map) => ValueModel::Mapping(map@),
            AmqpValue::Array(items) => ValueModel::Array(
                Seq::new(
                    items@.len(),
                    |i: int| if 0 <= i < items@.len() { items[i]@ } else { ValueModel::Null },
                ),
            ),
        }
    }
}

/// The models of `items`, in order.
pub open spec fn models_of(items: Seq<AmqpValue>) -> Seq<ValueModel> {
    Seq::new(items.len(), |i: int| items[i]@)
}

/// The model of a list or an array is made of the models of its items.
pub proof fn lemma_list_model(items: Vec<AmqpValue>)
    ensures
        AmqpValue::List(items)@ == ValueModel::List(models_of(items@)),
        AmqpValue::Array(items)@ == ValueModel::Array(models_of(items@)),
{
    reveal_with_fuel(<AmqpValue as View>::view, 2);
    let models = models_of(items@);
    let in_list = AmqpValue::List(items)@->List_0;
    let in_array = AmqpValue::Array(items)@->Array_0;
    assert forall|i: int| 0 <= i < models.len() implies in_list[i] == models[i] && in_array[i]
        == models[i] by {
        assert(items[i] == items@[i]);
    }
    assert(in_list =~= models);
    assert(in_array =~= models);
}

/// No key occurs twice among `entries`.
pub open spec fn keys_distinct(entries: Seq<(Seq<char>, ValueModel)>) -> bool {
    forall|i: int, j: int|
        0 <= i < j < entries.len() ==> (#[trigger] entries[i]).0 != (#[trigger] entries[j]).0
}

/// The position of the first entry with key `key`, or the number of
/// entries where there is none.
pub open spec fn position_of(entries: Seq<(Seq<char>, ValueModel)>, key: Seq<char>) -> int
    decreases entries.len(),
{
    if entries.len() == 0 {
        0
    } else if entries[0].0 == key {
        0
    } else {
        1 + position_of(entries.drop_first(), key)
    }
}

/// True when some entry has key `key`.
pub open spec fn has_key(entries: Seq<(Seq<char>, ValueModel)>, key: Seq<char>) -> bool {
    exists|i: int| 0 <= i < entries.len() && (#[trigger] entries[i]).0 == key
}

/// The value under `key`, where there is one.
pub open spec fn lookup(entries: Seq<(Seq<char>, ValueModel)>, key: Seq<char>) -> Option<
    ValueModel,
> {
    if position_of(entries, key) < entries.len() {
        Some(entries[position_of(entries, key)].1)
    } else {
        None
    }
}

/// The entries after `key` has been given `value`: the value is replaced
/// in place where the key is present, and a new entry is added at the end
/// where it is not.
pub open spec fn with_entry(
    entries: Seq<(Seq<char>, ValueModel)>,
    key: Seq<char>,
    value: ValueModel,
) -> Seq<(Seq<char>, ValueModel)> {
    if position_of(entries, key) < entries.len() {
        entries.update(position_of(entries, key), (key, value))
    } else {
        entries.push((key, value))
    }
}

/// `position_of` finds the first entry with the key: it is the one index
/// below which no entry has the key and at which, if it is an index at
/// all, the entry has it.
pub proof fn lemma_position_of(entries: Seq<(Seq<char>, ValueModel)>, key: Seq<char>, at: int)
    requires
        0 <= at <= entries.len(),
        forall|j: int| 0 <= j < at ==> (#[trigger] entries[j]).0 != key,
        at < entries.len() ==> entries[at].0 == key,
    ensures
        position_of(entries, key) == at,
    decreases entries.len(),
{
    if entries.len() > 0 && at > 0 {
        let tail = entries.drop_first();
        assert forall|j: int| 0 <= j < at - 1 implies (#[trigger] tail[j]).0 != key by {
            assert(tail[j] == entries[j + 1]);
        }
        assert(entries[0].0 != key);
        lemma_position_of(tail, key, at - 1);
    }
}

/// `position_of` is an index of an entry with the key, or the length.
pub proof fn lemma_position_of_bounds(entries: Seq<(Seq<char>, ValueModel)>, key: Seq<char>)
    ensures
        0 <= position_of(entries, key) <= entries.len(),
        position_of(entries, key) < entries.len() ==> entries[position_of(entries, key)].0 == key,
        forall|j: int| 0 <= j < position_of(entries, key) ==> (#[trigger] entries[j]).0 != key,
        has_key(entries, key) <==> position_of(entries, key) < entries.len(),
    decreases entries.len(),
{
    let at = position_of(entries, key);
    if entries.len() > 0 && entries[0].0 != key {
        let tail = entries.drop_first();
        lemma_position_of_bounds(tail, key);
        assert forall|j: int| 0 <= j < at implies (#[trigger] entries[j]).0 != key by {
            if j > 0 {
                assert(tail[j - 1] == entries[j]);
            }
        }
        if at < entries.len() {
            assert(tail[at - 1] == entries[at]);
        }
        if has_key(entries, key) {
            let i = choose|i: int| 0 <= i < entries.len() && (#[trigger] entries[i]).0 == key;
            assert(tail[i - 1] == entries[i]);
            assert(has_key(tail, key));
        }
    }
    if at < entries.len() {
        assert(entries[at].0 == key);
    }
}

/// Giving a key a value keeps the keys distinct.
pub proof fn lemma_with_entry_distinct(
    entries: Seq<(Seq<char>, ValueModel)>,
    key: Seq<char>,
    value: ValueModel,
)
    requires
        keys_distinct(entries),
    ensures
        keys_distinct(with_entry(entries, key, value)),
        has_key(with_entry(entries, key, value), key),
        lookup(with_entry(entries, key, value), key) == Some(value),
{
    lemma_position_of_bounds(entries, key);
    let after = with_entry(entries, key, value);
    let at = position_of(entries, key);
    assert(after[at].0 == key);
    assert forall|i: int, j: int| 0 <= i < j < after.len() implies (#[trigger] after[i]).0 != (
    #[trigger] after[j]).0 by {
        if at < entries.len() {
            assert(after[i].0 == entries[i].0);
            assert(after[j].0 == entries[j].0);
        } else {
            if j < entries.len() {
                assert(after[i] == entries[i]);
                assert(after[j] == entries[j]);
            } else {
                assert(after[i] == entries[i]);
            }
        }
    }
    assert forall|j: int| 0 <= j < at implies (#[trigger] after[j]).0 != key by {
        assert(after[j].0 == entries[j].0);
    }
    lemma_position_of(after, key, at);
}

impl AmqpSymbol {
    /// The symbol's text.
    pub fn as_str(&self) -> (s: &str)
        ensures
            s@ == self@,
    {
        self.0.as_str()
    }

    /// The symbol's text as an owned string.
    pub fn to_string(&self) -> (s: String)
        ensures
            s@ == self@,
    {
        self.0.clone()
    }
}

impl Clone for AmqpSymbol {
    fn clone(&self) -> (copy: Self)
        ensures
            copy == *self,
    {
        AmqpSymbol(self.0.clone())
    }
}

impl From<String> for AmqpSymbol {
    fn from(s: String) -> (symbol: Self)
        ensures
            symbol == AmqpSymbol(s),
    {
        AmqpSymbol(s)
    }
}

impl vstd::std_specs::convert::FromSpecImpl<String> for AmqpSymbol {
    open spec fn obeys_from_spec() -> bool {
        true
    }

    open spec fn from_spec(s: String) -> Self {
        AmqpSymbol(s)
    }
}

impl From<&str> for AmqpSymbol {
    fn from(s: &str) -> (symbol: Self)
        ensures
            symbol@ == s@,
    {
        AmqpSymbol(s.to_owned())
    }
}

impl vstd::std_specs::convert::FromSpecImpl<&str> for AmqpSymbol {
    open spec fn obeys_from_spec() -> bool {
        false
    }

    open spec fn from_spec(s: &str) -> Self {
        arbitrary()
    }
}

impl AmqpMap {
    #[verifier::type_invariant]
    spec fn no_key_twice(self) -> bool {
        forall|i: int, j: int|
            0 <= i < j < self.entries@.len() ==> (#[trigger] self.entries@[i]).0@ != (
            #[trigger] self.entries@[j]).0@
    }

    /// An empty map.
    pub fn new() -> (map: Self)
        ensures
            map@ == Seq::<(Seq<char>, ValueModel)>::empty(),
    {
        let map = AmqpMap { entries: Vec::new() };
        assert(map@ =~= Seq::<(Seq<char>, ValueModel)>::empty());
        map
    }

    /// The number of entries.
    pub fn len(&self) -> (n: usize)
        ensures
            n == self@.len(),
    {
        self.entries.len()
    }

    /// True when the map has no entry.
    pub fn is_empty(&self) -> (empty: bool)
        ensures
            empty == (self@.len() == 0),
    {
        self.entries.len() == 0
    }

    /// The key of the entry at `index`, in insertion order.
    pub fn key_at(&self, index: usize) -> (key: &AmqpSymbol)
        requires
            index < self@.len(),
        ensures
            key@ == self@[index as int].0,
    {
        &self.entries[index].0
    }

    /// The value of the entry at `index`, in insertion order. The value
    /// is a part of the map, so a recursion over the map may go into it.
    pub fn value_at(&self, index: usize) -> (value: &AmqpValue)
        requires
            index < self@.len(),
        ensures
            value@ == self@[index as int].1,
            decreases_to!(self => value),
    {
        &self.entries[index].1
    }

    /// Does nothing when run; to the verifier it says that no key occurs
    /// twice in the map.
    pub fn keys_are_distinct(&self)
        ensures
            keys_distinct(self@),
    {
        proof {
            use_type_invariant(self);
            assert forall|i: int, j: int| 0 <= i < j < self@.len() implies (#[trigger] self@[i]).0
                != (#[trigger] self@[j]).0 by {
                assert(self.entries@[i].0@ != self.entries@[j].0@);
            }
        }
    }

    fn find(&self, key: &AmqpSymbol) -> (at: usize)
        ensures
            at == position_of(self@, key@),
            at <= self@.len(),
    {
        let mut i: usize = 0;
        while i < self.entries.len()
            invariant
                i <= self.entries@.len(),
                self@.len() == self.entries@.len(),
                forall|j: int| 0 <= j < i ==> (#[trigger] self@[j]).0 != key@,
            decreases self.entries@.len() - i,
        {
            if self.entries[i].0.0 == key.0 {
                proof {
                    lemma_position_of(self@, key@, i as int);
                }
                return i;
            }
            i = i + 1;
        }
        proof {
            lemma_position_of(self@, key@, i as int);
        }
        i
    }

    /// The value under `key`, where there is one.
    pub fn get(&self, key: &AmqpSymbol) -> (found: Option<&AmqpValue>)
        ensures
            found is Some <==> has_key(self@, key@),
            match found {
                Some(value) => lookup(self@, key@) == Some(value@),
                None => lookup(self@, key@) is None,
            },
    {
        let at = self.find(key);
        proof {
            lemma_position_of_bounds(self@, key@);
        }
        if at < self.entries.len() {
            Some(&self.entries[at].1)
        } else {
            None
        }
    }

    /// True when the map has an entry under `key`.
    pub fn contains_key(&self, key: &AmqpSymbol) -> (present: bool)
        ensures
            present == has_key(self@, key@),
    {
        let at = self.find(key);
        proof {
            lemma_position_of_bounds(self@, key@);
        }
        at < self.entries.len()
    }

    /// Gives `key` the value `value`: replaces the value where the key is
    /// present, adds an entry at the end where it is not.
    pub fn insert(&mut self, key: AmqpSymbol, value: AmqpValue)
        ensures
            final(self)@ == with_entry(old(self)@, key@, value@),
            keys_distinct(final(self)@),
    {
        let at = self.find(&key);
        proof {
            use_type_invariant(&*self);
            lemma_position_of_bounds(self@, key@);
        }
        let ghost before = self@;
        let ghost raw = self.entries@;
        let ghost key_text = key@;
        let ghost value_model = value@;
        proof {
            assert(keys_distinct(before)) by {
                assert forall|i: int, j: int| 0 <= i < j < before.len() implies (
                #[trigger] before[i]).0 != (#[trigger] before[j]).0 by {
                    assert(raw[i].0@ != raw[j].0@);
                }
            }
            lemma_with_entry_distinct(before, key_text, value_model);
        }
        let mut entries: Vec<(AmqpSymbol, AmqpValue)> = Vec::new();
        core::mem::swap(&mut self.entries, &mut entries);
        if at < entries.len() {
            entries.set(at, (key, value));
        } else {
            entries.push((key, value));
        }
        let ghost after = with_entry(before, key_text, value_model);
        assert(entries@.len() == after.len());
        assert forall|i: int| 0 <= i < entries@.len() implies (#[trigger] entries@[i]).0@
            == after[i].0 && entries@[i].1@ == after[i].1 by {
            if i != at {
                assert(entries@[i] == raw[i]);
                assert(before[i] == (raw[i].0@, raw[i].1@));
            }
        }
        assert forall|i: int, j: int| 0 <= i < j < entries@.len() implies (
        #[trigger] entries@[i]).0@ != (#[trigger] entries@[j]).0@ by {
            assert(after[i].0 != after[j].0);
        }
        core::mem::swap(&mut self.entries, &mut entries);
        assert(self@ =~= after);
    }
}

impl Clone for AmqpMap {
    fn clone(&self) -> (copy: Self)
        ensures
            copy@ == self@,
        decreases self,
    {
        proof {
            use_type_invariant(self);
        }
        let mut entries: Vec<(AmqpSymbol, AmqpValue)> = Vec::new();
        let mut i: usize = 0;
        while i < self.entries.len()
            invariant
                i <= self.entries@.len(),
                entries@.len() == i,
                forall|j: int|
                    0 <= j < i ==> (#[trigger] entries@[j]).0@ == self.entries@[j].0@
                        && entries@[j].1@ == self.entries@[j].1@,
            decreases self.entries@.len() - i,
        {
            let key = self.entries[i].0.clone();
            let value = self.entries[i].1.clone();
            entries.push((key, value));
            i = i + 1;
        }
        let copy = AmqpMap { entries };
        assert(copy@ =~= self@);
        copy
    }
}

/// Copies a list of values element by element.
pub fn clone_list(items: &Vec<AmqpValue>) -> (copy: Vec<AmqpValue>)
    ensures
        copy@.len() == items@.len(),
        forall|i: int| 0 <= i < items@.len() ==> (#[trigger] copy@[i])@ == items@[i]@,
    decreases items,
{
    let mut copy: Vec<AmqpValue> = Vec::new();
    let mut i: usize = 0;
    while i < items.len()
        invariant
            i <= items@.len(),
            copy@.len() == i,
            forall|j: int| 0 <= j < i ==> (#[trigger] copy@[j])@ == items@[j]@,
        decreases items@.len() - i,
    {
        let item = items[i].clone();
        copy.push(item);
        i = i + 1;
    }
    copy
}

/// Copies a run of octets.
pub fn clone_octets(data: &Vec<u8>) -> (copy: Vec<u8>)
    ensures
        copy@ == data@,
{
    let mut copy: Vec<u8> = Vec::new();
    let mut i: usize = 0;
    while i < data.len()
        invariant
            i <= data@.len(),
            copy@ == data@.subrange(0, i as int),
        decreases data@.len() - i,
    {
        copy.push(data[i]);
        assert(copy@ =~= data@.subrange(0, i + 1));
        i = i + 1;
    }
    assert(data@.subrange(0, data@.len() as int) =~= data@);
    copy
}

impl Clone for AmqpValue {
    fn clone(&self) -> (copy: Self)
        ensures
            copy@ == self@,
        decreases self,
    {
        match self {
            AmqpValue::Null => AmqpValue::Null,
            AmqpValue::Boolean(x) => AmqpValue::Boolean(*x),
            AmqpValue::Ubyte(x) => AmqpValue::Ubyte(*x),
            AmqpValue::Ushort(x) => AmqpValue::Ushort(*x),
            AmqpValue::Uint(x) => AmqpValue::Uint(*x),
            AmqpValue::Ulong(x) => AmqpValue::Ulong(*x),
            AmqpValue::Byte(x) => AmqpValue::Byte(*x),
            AmqpValue::Short(x) => AmqpValue::Short(*x),
            AmqpValue::Int(x) => AmqpValue::Int(*x),
            AmqpValue::Long(x) => AmqpValue::Long(*x),
            AmqpValue::Float(x) => AmqpValue::Float(*x),
            AmqpValue::Double(x) => AmqpValue::Double(*x),
            AmqpValue::Decimal32(x) => AmqpValue::Decimal32(*x),
            AmqpValue::Decimal64(x) => AmqpValue::Decimal64(*x),
            AmqpValue::Decimal128(x) => AmqpValue::Decimal128(*x),
            AmqpValue::Char(x) => AmqpValue::Char(*x),
            AmqpValue::Timestamp(x) => AmqpValue::Timestamp(*x),
            AmqpValue::Uuid(x) => AmqpValue::Uuid(*x),
            AmqpValue::Binary(data) => AmqpValue::Binary(clone_octets(data)),
            AmqpValue::String(s) => AmqpValue::String(s.clone()),
            AmqpValue::Symbol(s) => AmqpValue::Symbol(s.clone()),
            AmqpValue::List(list) => {
                let inner = clone_list(list);
                assert forall|i: int| 0 <= i < inner@.len() implies inner[i]@ == list[i]@ by {
                    assert(inner@[i]@ == list@[i]@);
                }
                let copy = AmqpValue::List(inner);
                assert(copy@->List_0 =~= self@->List_0);
                copy
            },
            AmqpValue::Mapping(map) => AmqpValue::Mapping(map.clone()),
            AmqpValue::Array(items) => {
                let inner = clone_list(items);
                assert forall|i: int| 0 <= i < inner@.len() implies inner[i]@ == items[i]@ by {
                    assert(inner@[i]@ == items@[i]@);
                }
                let copy = AmqpValue::Array(inner);
                assert(copy@->Array_0 =~= self@->Array_0);
                copy
            },
        }
    }
}

/// True when two values are the same but for the order of the entries of
/// their maps, at any depth: lists and arrays item by item; maps where
/// both have the same keys and under each key values that are alike;
/// anything else as it is.
pub open spec fn alike(a: ValueModel, b: ValueModel) -> bool
    decreases a,
{
    match a {
        ValueModel::List(x) => b matches ValueModel::List(y) && x.len() == y.len() && forall|
            i: int,
        |
            0 <= i < x.len() ==> alike(#[trigger] x[i], y[i]),
        ValueModel::Array(x) => b matches ValueModel::Array(y) && x.len() == y.len() && forall|
            i: int,
        |
            0 <= i < x.len() ==> alike(#[trigger] x[i], y[i]),
        ValueModel::Mapping(x) => b matches ValueModel::Mapping(y) && (forall|key: Seq<char>|
            #![trigger has_key(x, key)]
            #![trigger has_key(y, key)]
            has_key(x, key) <==> has_key(y, key)) && forall|i: int|
            0 <= i < x.len() ==> alike((#[trigger] x[i]).1, lookup(y, x[i].0)->0),
        _ => a == b,
    }
}

/// Every value in which no map has a key twice is like itself: a value
/// compares as the same with its copy.
pub proof fn alike_is_reflexive(v: ValueModel)
    requires
        crate::wire::keys_unique(v),
    ensures
        alike(v, v),
    decreases v,
{
    match v {
        ValueModel::List(items) => {
            crate::round_trip::lemma_items_keys_unique(items, items.len());
            assert forall|i: int| 0 <= i < items.len() implies alike(
                #[trigger] items[i],
                items[i],
            ) by {
                alike_is_reflexive(items[i]);
            }
        },
        ValueModel::Array(items) => {
            crate::round_trip::lemma_items_keys_unique(items, items.len());
            assert forall|i: int| 0 <= i < items.len() implies alike(
                #[trigger] items[i],
                items[i],
            ) by {
                alike_is_reflexive(items[i]);
            }
        },
        ValueModel::Mapping(entries) => {
            crate::round_trip::lemma_entries_keys_unique(entries, entries.len());
            assert forall|i: int| 0 <= i < entries.len() implies alike(
                (#[trigger] entries[i]).1,
                lookup(entries, entries[i].0)->0,
            ) by {
                lemma_position_of(entries, entries[i].0, i);
                alike_is_reflexive(entries[i].1);
            }
        },
        _ => {},
    }
}

/// Being alike goes both ways: where `a` is like `b`, and no map in `b`
/// has a key twice, `b` is like `a`.
pub proof fn alike_is_symmetric(a: ValueModel, b: ValueModel)
    requires
        alike(a, b),
        crate::wire::keys_unique(b),
    ensures
        alike(b, a),
    decreases a,
{
    match a {
        ValueModel::List(x) => {
            let y = b->List_0;
            crate::round_trip::lemma_items_keys_unique(y, y.len());
            assert forall|i: int| 0 <= i < y.len() implies alike(
                #[trigger] y[i],
                x[i],
            ) by {
                alike_is_symmetric(x[i], y[i]);
            }
        },
        ValueModel::Array(x) => {
            let y = b->Array_0;
            crate::round_trip::lemma_items_keys_unique(y, y.len());
            assert forall|i: int| 0 <= i < y.len() implies alike(
                #[trigger] y[i],
                x[i],
            ) by {
                alike_is_symmetric(x[i], y[i]);
            }
        },
        ValueModel::Mapping(x) => {
            let y = b->Mapping_0;
            crate::round_trip::lemma_entries_keys_unique(y, y.len());
            assert forall|j: int| 0 <= j < y.len() implies alike(
                (#[trigger] y[j]).1,
                lookup(x, y[j].0)->0,
            ) by {
                let key = y[j].0;
                assert(has_key(y, key));
                assert(has_key(x, key));
                lemma_position_of_bounds(x, key);
                let i = position_of(x, key);
                lemma_position_of(y, key, j);
                assert(lookup(y, x[i].0) == Some(y[j].1));
                alike_is_symmetric(x[i].1, y[j].1);
            }
        },
        _ => {},
    }
}

/// Being alike carries over: where `a` is like `b` and `b` is like `c`,
/// `a` is like `c`.
pub proof fn alike_is_transitive(a: ValueModel, b: ValueModel, c: ValueModel)
    requires
        alike(a, b),
        alike(b, c),
    ensures
        alike(a, c),
    decreases a,
{
    match a {
        ValueModel::List(x) => {
            let y = b->List_0;
            let z = c->List_0;
            assert forall|i: int| 0 <= i < x.len() implies alike(
                #[trigger] x[i],
                z[i],
            ) by {
                alike_is_transitive(x[i], y[i], z[i]);
            }
        },
        ValueModel::Array(x) => {
            let y = b->Array_0;
            let z = c->Array_0;
            assert forall|i: int| 0 <= i < x.len() implies alike(
                #[trigger] x[i],
                z[i],
            ) by {
                alike_is_transitive(x[i], y[i], z[i]);
            }
        },
        ValueModel::Mapping(x) => {
            let y = b->Mapping_0;
            let z = c->Mapping_0;
            assert forall|key: Seq<char>| has_key(x, key) == has_key(z, key) by {
                assert(has_key(x, key) == has_key(y, key));
                assert(has_key(y, key) == has_key(z, key));
            }
            assert forall|i: int| 0 <= i < x.len() implies alike(
                (#[trigger] x[i]).1,
                lookup(z, x[i].0)->0,
            ) by {
                let key = x[i].0;
                assert(has_key(x, key));
                assert(has_key(y, key));
                lemma_position_of_bounds(y, key);
                let j = position_of(y, key);
                alike_is_transitive(x[i].1, y[j].1, lookup(z, key)->0);
            }
        },
        _ => {},
    }
}

/// Compares two lists item by item.
fn same_items(a: &Vec<AmqpValue>, b: &Vec<AmqpValue>) -> (same: bool)
    ensures
        same == (models_of(a@).len() == models_of(b@).len() && forall|i: int|
            0 <= i < models_of(a@).len() ==> alike(
                #[trigger] models_of(a@)[i],
                models_of(b@)[i],
            )),
    decreases a,
{
    let ghost x = models_of(a@);
    let ghost y = models_of(b@);
    if a.len() != b.len() {
        return false;
    }
    let mut i: usize = 0;
    while i < a.len()
        invariant
            i <= a@.len(),
            a@.len() == b@.len(),
            x == models_of(a@),
            y == models_of(b@),
            forall|j: int| 0 <= j < i ==> alike(#[trigger] x[j], y[j]),
        decreases a@.len() - i,
    {
        let same = a[i].same_as(&b[i]);
        assert(x[i as int] == a@[i as int]@);
        assert(y[i as int] == b@[i as int]@);
        if !same {
            return false;
        }
        i = i + 1;
    }
    true
}

/// Establishes that no map in the items has a key twice.
pub(crate) fn items_keys_are_unique(items: &Vec<AmqpValue>)
    ensures
        crate::wire::items_keys_unique(models_of(items@), items@.len()),
    decreases items,
{
    let ghost models = models_of(items@);
    let mut i: usize = 0;
    while i < items.len()
        invariant
            i <= items@.len(),
            models == models_of(items@),
            crate::wire::items_keys_unique(models, i as nat),
        decreases items@.len() - i,
    {
        items[i].keys_are_unique();
        assert(models[i as int] == items@[i as int]@);
        i = i + 1;
    }
}

impl AmqpMap {
    /// True exactly when both maps hold the same keys, and under each
    /// key values that are `alike`, in whatever order.
    pub fn same_entries(&self, other: &AmqpMap) -> (same: bool)
        ensures
            same == alike(ValueModel::Mapping(self@), ValueModel::Mapping(other@)),
        decreases self,
    {
        let mut i: usize = 0;
        while i < self.len()
            invariant
                i <= self@.len(),
                forall|j: int|
                    0 <= j < i ==> has_key(other@, (#[trigger] self@[j]).0) && alike(
                        self@[j].1,
                        lookup(other@, self@[j].0)->0,
                    ),
            decreases self@.len() - i,
        {
            match other.get(self.key_at(i)) {
                Some(theirs) => {
                    if !self.value_at(i).same_as(theirs) {
                        return false;
                    }
                },
                None => {
                    assert(has_key(self@, self@[i as int].0));
                    return false;
                },
            }
            i = i + 1;
        }
        let mut k: usize = 0;
        while k < other.len()
            invariant
                k <= other@.len(),
                forall|j: int| 0 <= j < k ==> has_key(self@, (#[trigger] other@[j]).0),
            decreases other@.len() - k,
        {
            if !self.contains_key(other.key_at(k)) {
                assert(has_key(other@, other@[k as int].0));
                return false;
            }
            k = k + 1;
        }
        assert forall|key: Seq<char>| has_key(self@, key) == has_key(other@, key) by {
            if has_key(self@, key) {
                let j = choose|j: int| 0 <= j < self@.len() && (#[trigger] self@[j]).0 == key;
                assert(has_key(other@, self@[j].0));
            }
            if has_key(other@, key) {
                let j = choose|j: int| 0 <= j < other@.len() && (#[trigger] other@[j]).0 == key;
                assert(has_key(self@, other@[j].0));
            }
        }
        true
    }

    /// Does nothing but walk the map when run; to the verifier it says
    /// that no map in it, at any depth, has a key twice.
    pub fn keys_are_unique(&self)
        ensures
            crate::wire::keys_unique(ValueModel::Mapping(self@)),
        decreases self,
    {
        self.keys_are_distinct();
        let ghost entries = self@;
        let mut i: usize = 0;
        while i < self.len()
            invariant
                i <= self@.len(),
                entries == self@,
                crate::wire::entries_keys_unique(entries, i as nat),
            decreases self@.len() - i,
        {
            self.value_at(i).keys_are_unique();
            i = i + 1;
        }
    }
}

impl PartialEq for AmqpMap {
    fn eq(&self, other: &Self) -> (same: bool) {
        self.same_entries(other)
    }
}

impl vstd::std_specs::cmp::PartialEqSpecImpl for AmqpMap {
    open spec fn obeys_eq_spec() -> bool {
        true
    }

    open spec fn eq_spec(&self, other: &Self) -> bool {
        alike(ValueModel::Mapping(self@), ValueModel::Mapping(other@))
    }
}

impl AmqpValue {
    /// True exactly when both values are the same but for the order of
    /// the entries of their maps.
    pub fn same_as(&self, other: &AmqpValue) -> (same: bool)
        ensures
            same == alike(self@, other@),
        decreases self,
    {
        match (self, other) {
            (AmqpValue::Null, AmqpValue::Null) => true,
            (AmqpValue::Boolean(a), AmqpValue::Boolean(b)) => *a == *b,
            (AmqpValue::Ubyte(a), AmqpValue::Ubyte(b)) => *a == *b,
            (AmqpValue::Ushort(a), AmqpValue::Ushort(b)) => *a == *b,
            (AmqpValue::Uint(a), AmqpValue::Uint(b)) => *a == *b,
            (AmqpValue::Ulong(a), AmqpValue::Ulong(b)) => *a == *b,
            (AmqpValue::Byte(a), AmqpValue::Byte(b)) => *a == *b,
            (AmqpValue::Short(a), AmqpValue::Short(b)) => *a == *b,
            (AmqpValue::Int(a), AmqpValue::Int(b)) => *a == *b,
            (AmqpValue::Long(a), AmqpValue::Long(b)) => *a == *b,
            (AmqpValue::Float(a), AmqpValue::Float(b)) => *a == *b,
            (AmqpValue::Double(a), AmqpValue::Double(b)) => *a == *b,
            (AmqpValue::Decimal32(a), AmqpValue::Decimal32(b)) => *a == *b,
            (AmqpValue::Decimal64(a), AmqpValue::Decimal64(b)) => *a == *b,
            (AmqpValue::Decimal128(a), AmqpValue::Decimal128(b)) => *a == *b,
            (AmqpValue::Char(a), AmqpValue::Char(b)) => *a == *b,
            (AmqpValue::Timestamp(a), AmqpValue::Timestamp(b)) => *a == *b,
            (AmqpValue::Uuid(a), AmqpValue::Uuid(b)) => *a == *b,
            (AmqpValue::Binary(a), AmqpValue::Binary(b)) => crate::transport::octets_equal(
                a.as_slice(),
                b.as_slice(),
            ),
            (AmqpValue::String(a), AmqpValue::String(b)) => *a == *b,
            (AmqpValue::Symbol(a), AmqpValue::Symbol(b)) => a.0 == b.0,
            (AmqpValue::List(a), AmqpValue::List(b)) => {
                proof {
                    lemma_list_model(*a);
                    lemma_list_model(*b);
                }
                same_items(a, b)
            },
            (AmqpValue::Mapping(a), AmqpValue::Mapping(b)) => a.same_entries(b),
            (AmqpValue::Array(a), AmqpValue::Array(b)) => {
                proof {
                    lemma_list_model(*a);
                    lemma_list_model(*b);
                }
                same_items(a, b)
            },
            _ => false,
        }
    }

    /// Does nothing but walk the value when run; to the verifier it says
    /// that no map in it, at any depth, has a key twice, which holds of
    /// every value.
    pub fn keys_are_unique(&self)
        ensures
            crate::wire::keys_unique(self@),
        decreases self,
    {
        match self {
            AmqpValue::List(items) => {
                proof {
                    lemma_list_model(*items);
                }
                items_keys_are_unique(items);
            },
            AmqpValue::Mapping(map) => {
                map.keys_are_unique();
            },
            AmqpValue::Array(items) => {
                proof {
                    lemma_list_model(*items);
                }
                items_keys_are_unique(items);
            },
            _ => {},
        }
    }
}

/// An error as a peer reports it: a condition, with an optional description
/// and optional further information.
#[derive(Debug, Clone, PartialEq)]
pub struct AmqpError {
    pub condition: AmqpCondition,
    pub description: Option<String>,
    pub info: Option<AmqpMap>,
}

impl AmqpError {
    /// An error with the given condition and nothing else.
    pub fn new(condition: AmqpCondition) -> (error: Self)
        ensures
            error.condition == condition,
            error.description is None,
            error.info is None,
    {
        AmqpError { condition, description: None, info: None }
    }

    /// The same error with `description` as its description.
    pub fn with_description(self, description: &str) -> (error: Self)
        ensures
            error.condition == self.condition,
            error.info == self.info,
            error.description is Some,
            error.description->0@ == description@,
    {
        AmqpError {
            condition: self.condition,
            description: Some(description.to_owned()),
            info: self.info,
        }
    }

    /// The same error with `info` as its further information.
    pub fn with_info(self, info: AmqpMap) -> (error: Self)
        ensures
            error.condition == self.condition,
            error.description == self.description,
            error.info == Some(info),
    {
        AmqpError { condition: self.condition, description: self.description, info: Some(info) }
    }
}

/// When a sender settles its deliveries.
#[derive(Debug, Clone, Copy, PartialEq, Eq, Structural)]
pub enum SenderSettleMode {
    Unsettled,
    Settled,
    Mixed,
}

/// When a receiver settles its deliveries.
#[derive(Debug, Clone, Copy, PartialEq, Eq, Structural)]
pub enum ReceiverSettleMode {
    First,
    Second,
}

/// What a terminus keeps across the end of a link.
#[derive(Debug, Clone, Copy, PartialEq, Eq, Structural)]
pub enum TerminusDurability {
    NotDurable,
    Configuration,
    UnsettledState,
}

/// When a terminus expires.
#[derive(Debug, Clone, Copy, PartialEq, Eq, Structural)]
pub enum TerminusExpiryPolicy {
    SessionEnd,
    ConnectionClose,
    Never,
}

impl SenderSettleMode {
    /// The mode's number on the wire.
    pub fn code(&self) -> (code: u8)
        ensures
            code == match self {
                SenderSettleMode::Unsettled => 0u8,
                SenderSettleMode::Settled => 1u8,
                SenderSettleMode::Mixed => 2u8,
            },
    {
        match self {
            SenderSettleMode::Unsettled => 0,
            SenderSettleMode::Settled => 1,
            SenderSettleMode::Mixed => 2,
        }
    }
}

impl ReceiverSettleMode {
    /// The mode's number on the wire.
    pub fn code(&self) -> (code: u8)
        ensures
            code == match self {
                ReceiverSettleMode::First => 0u8,
                ReceiverSettleMode::Second => 1u8,
            },
    {
        match self {
            ReceiverSettleMode::First => 0,
            ReceiverSettleMode::Second => 1,
        }
    }
}

impl TerminusDurability {
    /// The durability's number on the wire.
    pub fn code(&self) -> (code: u8)
        ensures
            code == match self {
                TerminusDurability::NotDurable => 0u8,
                TerminusDurability::Configuration => 1u8,
                TerminusDurability::UnsettledState => 2u8,
            },
    {
        match self {
            TerminusDurability::NotDurable => 0,
            TerminusDurability::Configuration => 1,
            TerminusDurability::UnsettledState => 2,
        }
    }
}

impl TerminusExpiryPolicy {
    /// The policy's number on the wire.
    pub fn code(&self) -> (code: u8)
        ensures
            code == match self {
                TerminusExpiryPolicy::SessionEnd => 0u8,
                TerminusExpiryPolicy::ConnectionClose => 1u8,
                TerminusExpiryPolicy::Never => 2u8,
            },
    {
        match self {
            TerminusExpiryPolicy::SessionEnd => 0,
            TerminusExpiryPolicy::ConnectionClose => 1,
            TerminusExpiryPolicy::Never => 2,
        }
    }
}

/// The properties of a message as plain fields.
#[derive(Debug, Clone, PartialEq)]
pub struct MessageProperties {
    pub message_id: Option<AmqpValue>,
    pub user_id: Option<Vec<u8>>,
    pub to: Option<String>,
    pub subject: Option<String>,
    pub reply_to: Option<String>,
    pub correlation_id: Option<AmqpValue>,
    pub content_type: Option<String>,
    pub content_encoding: Option<String>,
    pub absolute_expiry_time: Option<i64>,
    pub creation_time: Option<i64>,
    pub group_id: Option<String>,
    pub group_sequence: Option<u32>,
    pub reply_to_group_id: Option<String>,
}

/// Annotations of a message.
pub type MessageAnnotations = AmqpMap;

/// Application properties of a message.
pub type ApplicationProperties = AmqpMap;

} // verus!
