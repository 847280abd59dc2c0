//! The dynamically typed values that the daemon sends.

use vstd::hash_map::StringHashMap;
use vstd::prelude::*;

verus! {

/// The mathematical content of a [`DynamicValue`].
pub ghost enum Value {
    Bool(bool),
    U8(u8),
    U16(u16),
    U32(u32),
    U64(u64),
    Str(Seq<char>),
    Array(Seq<Value>),
    Dict(Seq<(Seq<char>, Value)>),
    Other,
}

impl Value {
    /// The text of a string value.
    pub open spec fn text(self) -> Option<Seq<char>> {
        match self {
            Value::Str(s) => Some(s),
            _ => None,
        }
    }

    /// The number held by an unsigned integer of any width. A boolean is
    /// no number.
    pub open spec fn unsigned(self) -> Option<u64> {
        match self {
            Value::U8(n) => Some(n as u64),
            Value::U16(n) => Some(n as u64),
            Value::U32(n) => Some(n as u64),
            Value::U64(n) => Some(n),
            _ => None,
        }
    }

    /// The mapping that a dictionary stands for.
    pub open spec fn mapping(self) -> Option<Map<Seq<char>, Value>> {
        match self {
            Value::Dict(entries) => Some(entries_map(entries)),
            _ => None,
        }
    }

    /// The elements of a container: the items of an array, or the keys and
    /// values of a dictionary in turn, each key as a string value just
    /// before its value.
    pub open spec fn elements(self) -> Option<Seq<Value>> {
        match self {
            Value::Array(items) => Some(items),
            Value::Dict(entries) => Some(interleave(entries)),
            _ => None,
        }
    }
}

/// The keys and values of `entries` in one sequence: key, value, key, value.
pub open spec fn interleave(entries: Seq<(Seq<char>, Value)>) -> Seq<Value> {
    Seq::new(
        2 * entries.len(),
        |i: int|
            if i % 2 == 0 {
                Value::Str(entries[i / 2].0)
            } else {
                entries[i / 2].1
            },
    )
}

/// A value as it arrives from the daemon, tagged with its wire type.
#[derive(Debug, PartialEq, Eq)]
pub enum DynamicValue {
    Bool(bool),
    U8(u8),
    U16(u16),
    U32(u32),
    U64(u64),
    Str(String),
    Array(Vec<DynamicValue>),
    Dict(Vec<(String, DynamicValue)>),
    /// A value of a wire type that nothing here reads, such as a signed
    /// integer, a double or a file descriptor. It is there, and it is of no
    /// kind that an accessor asks for.
    Other,
}

/// The content of a value: each string by its characters, each container
/// by the contents of what it holds.
pub open spec fn content(value: DynamicValue) -> Value
    decreases value,
{
    match value {
        DynamicValue::Bool(b) => Value::Bool(b),
        DynamicValue::U8(n) => Value::U8(n),
        DynamicValue::U16(n) => Value::U16(n),
        DynamicValue::U32(n) => Value::U32(n),
        DynamicValue::U64(n) => Value::U64(n),
        DynamicValue::Str(s) => Value::Str(s@),
        DynamicValue::Array(items) => Value::Array(
            Seq::new(
                items@.len(),
                |i: int|
                    if 0 <= i < items@.len() {
                        content(items@[i])
                    } else {
                        arbitrary()
                    },
            ),
        ),
        DynamicValue::Dict(entries) => Value::Dict(
            Seq::new(
                entries@.len(),
                |i: int|
                    if 0 <= i < entries@.len() {
                        (entries@[i].0@, content(entries@[i].1))
                    } else {
                        arbitrary()
                    },
            ),
        ),
        DynamicValue::Other => Value::Other,
    }
}

impl DeepView for DynamicValue {
    type V = Value;

    open spec fn deep_view(&self) -> Value {
        content(*self)
    }
}

/// An array's content is the content of its items, in order.
pub proof fn lemma_array_view(items: Vec<DynamicValue>)
    ensures
        DynamicValue::Array(items).deep_view() == Value::Array(items.deep_view()),
{
    let unfolded = Seq::new(
        items@.len(),
        |i: int|
            if 0 <= i < items@.len() {
                items@[i].deep_view()
            } else {
                arbitrary()
            },
    );
    let v = DynamicValue::Array(items);
    assert(v.deep_view() is Array);
    assert(unfolded.len() == items@.len());
    assert(v.deep_view()->Array_0 == unfolded);
    assert(unfolded =~= items.deep_view());
}

/// A dictionary's content is the content of its entries, in order.
pub proof fn lemma_dict_view(entries: Vec<(String, DynamicValue)>)
    ensures
        DynamicValue::Dict(entries).deep_view() == Value::Dict(entries.deep_view()),
{
    let unfolded = Seq::new(
        entries@.len(),
        |i: int|
            if 0 <= i < entries@.len() {
                (entries@[i].0@, entries@[i].1.deep_view())
            } else {
                arbitrary()
            },
    );
    let v = DynamicValue::Dict(entries);
    assert(v.deep_view() is Dict);
    assert(unfolded.len() == entries@.len());
    assert(v.deep_view()->Dict_0 == unfolded);
    assert(unfolded =~= entries.deep_view());
}

impl DynamicValue {
    /// The text, if this is a string.
    pub fn as_str(&self) -> (text: Option<&str>)
        ensures
            text is Some <==> self.deep_view().text() is Some,
            text is Some ==> text->0@ == self.deep_view().text()->0,
    {
        match self {
            DynamicValue::Str(s) => Some(s.as_str()),
            _ => None,
        }
    }

    /// The number, if this is an unsigned integer of any width.
    pub fn as_u64(&self) -> (number: Option<u64>)
        ensures
            number == self.deep_view().unsigned(),
    {
        match self {
            DynamicValue::U8(n) => Some(*n as u64),
            DynamicValue::U16(n) => Some(*n as u64),
            DynamicValue::U32(n) => Some(*n as u64),
            DynamicValue::U64(n) => Some(*n),
            _ => None,
        }
    }

    /// Copies of the elements, if this is an array or a dictionary.
    pub fn elements(&self) -> (elements: Option<Vec<DynamicValue>>)
        ensures
            elements is Some <==> self.deep_view().elements() is Some,
            elements is Some ==> elements->0.deep_view() == self.deep_view().elements()->0,
    {
        match self {
            DynamicValue::Array(items) => {
                let mut out: Vec<DynamicValue> = Vec::new();
                let mut i: usize = 0;
                while i < items.len()
                    invariant
                        i <= items.len(),
                        out.len() == i,
                        forall|j: int| 0 <= j < i ==> out@[j].deep_view() == items@[j].deep_view(),
                    decreases items.len() - i,
                {
                    out.push(items[i].duplicate());
                    i += 1;
                }
                assert(out.deep_view() =~= self.deep_view()->Array_0);
                Some(out)
            },
            DynamicValue::Dict(entries) => {
                let mut out: Vec<DynamicValue> = Vec::new();
                let mut i: usize = 0;
                while i < entries.len()
                    invariant
                        i <= entries.len(),
                        out.len() == 2 * i,
                        forall|j: int|
                            0 <= j < i ==> out@[2 * j].deep_view() == Value::Str(entries@[j].0@)
                                && out@[2 * j + 1].deep_view() == entries@[j].1.deep_view(),
                    decreases entries.len() - i,
                {
                    out.push(DynamicValue::Str(entries[i].0.clone()));
                    out.push(entries[i].1.duplicate());
                    i += 1;
                }
                proof {
                    let want = interleave(self.deep_view()->Dict_0);
                    assert forall|k: int|
                        0 <= k < out.len() implies out.deep_view()[k] == want[k] by {
                        let j = k / 2;
                        assert(k == 2 * j || k == 2 * j + 1);
                    }
                    assert(out.deep_view() =~= want);
                }
                Some(out)
            },
            _ => None,
        }
    }

    /// A deep copy of this value.
    pub fn duplicate(&self) -> (copy: DynamicValue)
        ensures
            copy.deep_view() == self.deep_view(),
        decreases self,
    {
        match self {
            DynamicValue::Bool(b) => DynamicValue::Bool(*b),
            DynamicValue::U8(n) => DynamicValue::U8(*n),
            DynamicValue::U16(n) => DynamicValue::U16(*n),
            DynamicValue::U32(n) => DynamicValue::U32(*n),
            DynamicValue::U64(n) => DynamicValue::U64(*n),
            DynamicValue::Str(s) => DynamicValue::Str(s.clone()),
            DynamicValue::Other => DynamicValue::Other,
            DynamicValue::Array(items) => {
                let mut out: Vec<DynamicValue> = Vec::new();
                let mut i: usize = 0;
                while i < items.len()
                    invariant
                        i <= items.len(),
                        out.len() == i,
                        forall|j: int| 0 <= j < items.len() ==> decreases_to!(self => items@[j]),
                        forall|j: int| 0 <= j < i ==> out@[j].deep_view() == items@[j].deep_view(),
                    decreases items.len() - i,
                {
                    out.push(items[i].duplicate());
                    i += 1;
                }
                let copy = DynamicValue::Array(out);
                assert(copy.deep_view()->Array_0 =~= self.deep_view()->Array_0);
                copy
            },
            DynamicValue::Dict(entries) => {
                let mut out: Vec<(String, DynamicValue)> = Vec::new();
                let mut i: usize = 0;
                while i < entries.len()
                    invariant
                        i <= entries.len(),
                        out.len() == i,
                        forall|j: int|
                            0 <= j < entries.len() ==> decreases_to!(self => entries@[j].1),
                        forall|j: int|
                            0 <= j < i ==> out@[j].0@ == entries@[j].0@ && out@[j].1.deep_view()
                                == entries@[j].1.deep_view(),
                    decreases entries.len() - i,
                {
                    out.push((entries[i].0.clone(), entries[i].1.duplicate()));
                    i += 1;
                }
                let copy = DynamicValue::Dict(out);
                assert(copy.deep_view()->Dict_0 =~= self.deep_view()->Dict_0);
                copy
            },
        }
    }
}

/// The mapping that a list of named values stands for: where a name occurs
/// more than once, its last value counts.
pub open spec fn entries_map(entries: Seq<(Seq<char>, Value)>) -> Map<Seq<char>, Value>
    decreases entries.len(),
{
    if entries.len() == 0 {
        Map::empty()
    } else {
        entries_map(entries.drop_last()).insert(entries.last().0, entries.last().1)
    }
}

/// One snapshot of an object's properties: a mapping from property names,
/// exactly as the daemon spells them, to values.
pub struct PropertyMap {
    entries: StringHashMap<DynamicValue>,
}

impl DeepView for PropertyMap {
    type V = Map<Seq<char>, Value>;

    closed spec fn deep_view(&self) -> Map<Seq<char>, Value> {
        self.entries@.map_values(|value: DynamicValue| value.deep_view())
    }
}

impl PropertyMap {
    /// The snapshot without any property.
    pub fn new() -> (map: PropertyMap)
        ensures
            map.deep_view() == Map::<Seq<char>, Value>::empty(),
    {
        let map = PropertyMap { entries: StringHashMap::new() };
        assert(map.deep_view() =~= Map::empty());
        map
    }

    /// The snapshot that a dictionary holds, if `value` is one. Where a
    /// name occurs more than once, its last value counts.
    pub fn from_dict(value: &DynamicValue) -> (map: Option<PropertyMap>)
        ensures
            map.deep_view() == value.deep_view().mapping(),
    {
        match value {
            DynamicValue::Dict(entries) => {
                let ghost all = entries.deep_view();
                proof {
                    lemma_dict_view(*entries);
                    assert(all.take(0) =~= Seq::empty());
                }
                let mut map = PropertyMap::new();
                let mut i: usize = 0;
                while i < entries.len()
                    invariant
                        i <= entries.len(),
                        all == entries.deep_view(),
                        map.deep_view() == entries_map(all.take(i as int)),
                    decreases entries.len() - i,
                {
                    proof {
                        assert(all.take(i + 1).drop_last() =~= all.take(i as int));
                        assert(all[i as int] == (
                            entries@[i as int].0@,
                            entries@[i as int].1.deep_view(),
                        ));
                    }
                    map.insert(entries[i].0.clone(), entries[i].1.duplicate());
                    i += 1;
                }
                proof {
                    assert(all.take(entries.len() as int) =~= all);
                }
                Some(map)
            },
            _ => None,
        }
    }

    /// Sets the property `name` to `value`, in place of any earlier value.
    pub fn insert(&mut self, name: String, value: DynamicValue)
        ensures
            final(self).deep_view() == old(self).deep_view().insert(name@, value.deep_view()),
    {
        self.entries.insert(name, value);
        assert(final(self).deep_view() =~= old(self).deep_view().insert(
            name@,
            value.deep_view(),
        ));
    }

    /// The value of the property `name`, if the snapshot has it.
    pub fn get(&self, name: &str) -> (found: Option<&DynamicValue>)
        ensures
            found is Some <==> self.deep_view().contains_key(name@),
            found is Some ==> found->0.deep_view() == self.deep_view()[name@],
    {
        self.entries.get(name)
    }
}

} // verus!
