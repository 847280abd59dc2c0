//! Walking a composite property.
//!
//! A composite property, such as an address configuration, arrives as one
//! flat sequence in which names and values alternate. Decoding is lenient:
//! a pair with a name that is not known, or with a value that does not
//! read as its field's type, is passed over, and the other fields are read
//! all the same.

use crate::api::{elements_property, get_property_argiter, Parse};
use crate::value::{interleave, DynamicValue, PropertyMap, Value};
use vstd::prelude::*;

verus! {

/// The number of pairs that a walk reads from the position `from` on. The
/// walk ends before the first name that is not a string, and leaves out a
/// last name that has no value.
pub open spec fn pair_run(elements: Seq<Value>, from: int) -> nat
    decreases elements.len() - from,
{
    if 0 <= from && from + 1 < elements.len() && elements[from] is Str {
        1 + pair_run(elements, from + 2)
    } else {
        0
    }
}

/// The pairs of name and value that a walk over `elements` reads, in order.
pub open spec fn pairs(elements: Seq<Value>) -> Seq<(Seq<char>, Value)> {
    Seq::new(pair_run(elements, 0), |i: int| (elements[2 * i]->Str_0, elements[2 * i + 1]))
}

/// The field named `key` as the pairs give it: what `rule` reads from the
/// last pair of that name whose value `rule` accepts, and `None` where no
/// pair of that name has such a value.
pub open spec fn last_parsed<T>(
    pairs: Seq<(Seq<char>, Value)>,
    key: Seq<char>,
    rule: spec_fn(Value) -> Option<T>,
) -> Option<T>
    decreases pairs.len(),
{
    if pairs.len() == 0 {
        None
    } else if pairs.last().0 == key && rule(pairs.last().1) is Some {
        rule(pairs.last().1)
    } else {
        last_parsed(pairs.drop_last(), key, rule)
    }
}

/// The rule of a field that holds a string.
pub open spec fn text_rule() -> spec_fn(Value) -> Option<Seq<char>> {
    |value: Value| value.text()
}

/// The rule of a field that holds a list of strings.
pub open spec fn text_list_rule() -> spec_fn(Value) -> Option<Seq<Seq<char>>> {
    |value: Value| <Vec<String> as crate::api::Cast>::cast_of(value)
}

/// What a string value reads as, for a type that is read from a string.
pub open spec fn parsed_value<T: Parse>(value: Value) -> Option<T::V> {
    match value.text() {
        Some(text) => T::parsed(text),
        None => None,
    }
}

/// The rule of a field that holds a string which is read as a `T`.
pub open spec fn parsed_rule<T: Parse>() -> spec_fn(Value) -> Option<T::V> {
    |value: Value| parsed_value::<T>(value)
}

/// The rule of a field that holds a 16-bit number: the number of an
/// unsigned integer of any width, where it is at most 65535. A greater
/// number does not read as the field, and nothing is cut off it.
pub open spec fn sixteen_bit_rule() -> spec_fn(Value) -> Option<u16> {
    |value: Value|
        match value.unsigned() {
            Some(number) => if number <= 0xffff {
                Some(number as u16)
            } else {
                None
            },
            None => None,
        }
}

/// One more pair changes a field only if it has the field's name and a
/// value that the field's rule accepts.
pub proof fn lemma_last_parsed_push<T>(
    pairs: Seq<(Seq<char>, Value)>,
    pair: (Seq<char>, Value),
    key: Seq<char>,
    rule: spec_fn(Value) -> Option<T>,
)
    ensures
        last_parsed(pairs.push(pair), key, rule) == if pair.0 == key && rule(pair.1) is Some {
            rule(pair.1)
        } else {
            last_parsed(pairs, key, rule)
        },
{
    assert(pairs.push(pair).drop_last() =~= pairs);
}

/// A field is `None` exactly where no pair of its name has a value that
/// its rule accepts.
pub proof fn lemma_last_parsed_none<T>(
    pairs: Seq<(Seq<char>, Value)>,
    key: Seq<char>,
    rule: spec_fn(Value) -> Option<T>,
)
    ensures
        last_parsed(pairs, key, rule) is None <==> forall|i: int|
            0 <= i < pairs.len() && pairs[i].0 == key ==> rule(#[trigger] pairs[i].1) is None,
    decreases pairs.len(),
{
    if pairs.len() > 0 {
        let rest = pairs.drop_last();
        lemma_last_parsed_none(rest, key, rule);
        if pairs.last().0 == key && rule(pairs.last().1) is Some {
            assert(rule(pairs[pairs.len() - 1].1) is Some);
        } else {
            assert forall|i: int| 0 <= i < rest.len() implies rest[i] == pairs[i] by {}
            if last_parsed(rest, key, rule) is None {
                assert forall|i: int| 0 <= i < pairs.len() && pairs[i].0 == key implies rule(
                    #[trigger] pairs[i].1,
                ) is None by {
                    if i < rest.len() {
                        assert(rest[i].1 == pairs[i].1);
                    }
                }
            } else {
                let i = choose|i: int|
                    0 <= i < rest.len() && rest[i].0 == key && !(rule(
                        #[trigger] rest[i].1,
                    ) is None);
                assert(pairs[i].0 == key && rule(pairs[i].1) is Some);
            }
        }
    }
}

/// A field that is there was read from a pair of its name: it is what the
/// rule reads from that pair's value.
pub proof fn lemma_last_parsed_some<T>(
    pairs: Seq<(Seq<char>, Value)>,
    key: Seq<char>,
    rule: spec_fn(Value) -> Option<T>,
)
    ensures
        last_parsed(pairs, key, rule) is Some ==> exists|i: int|
            0 <= i < pairs.len() && pairs[i].0 == key && rule(#[trigger] pairs[i].1) == last_parsed(
                pairs,
                key,
                rule,
            ),
    decreases pairs.len(),
{
    if pairs.len() > 0 {
        let at = pairs.len() - 1;
        if pairs.last().0 == key && rule(pairs.last().1) is Some {
            assert(pairs[at].0 == key && rule(pairs[at].1) == last_parsed(pairs, key, rule));
        } else {
            let rest = pairs.drop_last();
            lemma_last_parsed_some(rest, key, rule);
            if last_parsed(rest, key, rule) is Some {
                let i = choose|i: int|
                    0 <= i < rest.len() && rest[i].0 == key && rule(#[trigger] rest[i].1)
                        == last_parsed(rest, key, rule);
                assert(pairs[i] == rest[i]);
                assert(pairs[i].0 == key && rule(pairs[i].1) == last_parsed(pairs, key, rule));
            }
        }
    }
}

/// Another value in a pair changes no field of another name.
pub proof fn lemma_last_parsed_other_name<T>(
    pairs: Seq<(Seq<char>, Value)>,
    at: int,
    value: Value,
    key: Seq<char>,
    rule: spec_fn(Value) -> Option<T>,
)
    requires
        0 <= at < pairs.len(),
        pairs[at].0 != key,
    ensures
        last_parsed(pairs.update(at, (pairs[at].0, value)), key, rule) == last_parsed(
            pairs,
            key,
            rule,
        ),
    decreases pairs.len(),
{
    let changed = pairs.update(at, (pairs[at].0, value));
    if at == pairs.len() - 1 {
        assert(changed.drop_last() =~= pairs.drop_last());
    } else {
        assert(changed.drop_last() =~= pairs.drop_last().update(at, (pairs[at].0, value)));
        lemma_last_parsed_other_name(pairs.drop_last(), at, value, key, rule);
    }
}

/// Where exactly one pair has the field's name, the field is what its rule
/// reads from that pair's value.
pub proof fn lemma_last_parsed_single<T>(
    pairs: Seq<(Seq<char>, Value)>,
    at: int,
    key: Seq<char>,
    rule: spec_fn(Value) -> Option<T>,
)
    requires
        0 <= at < pairs.len(),
        pairs[at].0 == key,
        forall|i: int| 0 <= i < pairs.len() && pairs[i].0 == key ==> i == at,
    ensures
        last_parsed(pairs, key, rule) == rule(pairs[at].1),
    decreases pairs.len(),
{
    let rest = pairs.drop_last();
    if at == pairs.len() - 1 {
        if rule(pairs[at].1) is None {
            lemma_last_parsed_none(rest, key, rule);
        }
    } else {
        lemma_last_parsed_single(rest, at, key, rule);
    }
}

/// A walk over the keys and values of a dictionary reads its entries back.
pub proof fn lemma_pairs_of_interleave(entries: Seq<(Seq<char>, Value)>)
    ensures
        pairs(interleave(entries)) == entries,
{
    let elements = interleave(entries);
    lemma_pair_run_of_interleave(entries, 0);
    assert(pairs(elements) =~= entries);
}

/// From an even place on, a walk over a dictionary's keys and values reads
/// every entry that is left.
proof fn lemma_pair_run_of_interleave(entries: Seq<(Seq<char>, Value)>, done: int)
    requires
        0 <= done <= entries.len(),
    ensures
        pair_run(interleave(entries), 2 * done) == entries.len() - done,
    decreases entries.len() - done,
{
    if done < entries.len() {
        lemma_pair_run_of_interleave(entries, done + 1);
        assert(interleave(entries)[2 * done] is Str);
    }
}

/// The two forms in which a composite property is sent.
pub ghost enum Form {
    /// One flat array in which names and values alternate.
    Sequence,
    /// A dictionary from names to values.
    Dictionary,
}

/// The value that holds the pairs `entries` in the form `form`.
pub open spec fn composite_value(entries: Seq<(Seq<char>, Value)>, form: Form) -> Value {
    match form {
        Form::Sequence => Value::Array(interleave(entries)),
        Form::Dictionary => Value::Dict(entries),
    }
}

/// In either form a composite value has the same elements, and a walk over
/// them reads the pairs back.
pub proof fn lemma_composite_value(entries: Seq<(Seq<char>, Value)>, form: Form)
    ensures
        composite_value(entries, form).elements() == Some(interleave(entries)),
        pairs(composite_value(entries, form).elements()->0) == entries,
{
    lemma_pairs_of_interleave(entries);
}

/// A walk over a composite property, pair by pair.
pub struct Pairs<'a> {
    elements: &'a Vec<DynamicValue>,
    at: usize,
}

impl<'a> Pairs<'a> {
    /// Whether the position is one that a walk from the start reaches.
    pub closed spec fn well_formed(&self) -> bool {
        &&& self.at % 2 == 0
        &&& self.at <= self.elements.len()
        &&& self.at / 2 + pair_run(self.elements.deep_view(), self.at as int) == pair_run(
            self.elements.deep_view(),
            0,
        )
    }

    /// The elements that are walked.
    pub closed spec fn source(&self) -> Seq<Value> {
        self.elements.deep_view()
    }

    /// The pairs that the walk has read.
    pub closed spec fn seen(&self) -> Seq<(Seq<char>, Value)> {
        pairs(self.elements.deep_view()).take(self.at as int / 2)
    }

    /// A walk at the start of `elements`.
    pub fn new(elements: &'a Vec<DynamicValue>) -> (walk: Pairs<'a>)
        ensures
            walk.well_formed(),
            walk.source() == elements.deep_view(),
            walk.seen() == Seq::<(Seq<char>, Value)>::empty(),
    {
        let walk = Pairs { elements, at: 0 };
        assert(walk.seen() =~= Seq::empty());
        walk
    }

    /// Reads the next pair. At the end of the walk there is none, and what
    /// has been read is all the pairs.
    pub fn next(&mut self) -> (pair: Option<(&'a str, &'a DynamicValue)>)
        requires
            old(self).well_formed(),
        ensures
            final(self).well_formed(),
            final(self).source() == old(self).source(),
            pair is None ==> final(self).seen() == old(self).seen() && old(self).seen() == pairs(
                old(self).source(),
            ),
            pair matches Some((key, value)) ==> final(self).seen() == old(self).seen().push(
                (key@, value.deep_view()),
            ),
            final(self).seen().len() <= pairs(old(self).source()).len(),
    {
        let ghost all = pairs(self.elements.deep_view());
        let ghost count = self.at as int / 2;
        if self.at >= self.elements.len() || self.elements.len() - self.at < 2 {
            proof {
                assert(all.take(count) =~= all);
            }
            return None;
        }
        match self.elements[self.at].as_str() {
            None => {
                proof {
                    assert(all.take(count) =~= all);
                }
                None
            },
            Some(key) => {
                let value = &self.elements[self.at + 1];
                proof {
                    let source = self.elements.deep_view();
                    assert(source[self.at as int] == self.elements@[self.at as int].deep_view());
                    assert(source[self.at + 1] == self.elements@[self.at + 1].deep_view());
                    assert(all[count] == (key@, value.deep_view()));
                    assert(all.take(count + 1) =~= all.take(count).push(all[count]));
                }
                self.at = self.at + 2;
                Some((key, value))
            },
        }
    }
}

/// A value with named fields, each of which may be missing.
pub trait Composite: Sized + DeepView {
    /// The value that the pairs `read` describe: each field from the last
    /// pair of its name that reads as its type.
    spec fn fields(read: Seq<(Seq<char>, Value)>) -> Self::V;

    /// Decodes a value from the elements of its property. This never
    /// fails: a pair that does not read is passed over.
    fn from_elements(elements: &Vec<DynamicValue>) -> (decoded: Self)
        ensures
            decoded.deep_view() == Self::fields(pairs(elements.deep_view())),
    ;
}

/// What [`get_composite`] yields: the composite that the property `name`
/// describes, and the one without any field where the property is missing
/// or is no array or dictionary.
pub open spec fn composite_property<C: Composite>(
    properties: Map<Seq<char>, Value>,
    name: Seq<char>,
) -> C::V {
    match elements_property(properties, name) {
        Ok(elements) => C::fields(pairs(elements)),
        Err(_) => C::fields(Seq::empty()),
    }
}

/// The composite property `prop_name`, read without fail.
pub fn get_composite<C: Composite>(properties: &PropertyMap, prop_name: &str) -> (composite: C)
    ensures
        composite.deep_view() == composite_property::<C>(properties.deep_view(), prop_name@),
{
    match get_property_argiter(properties, prop_name) {
        Ok(elements) => C::from_elements(&elements),
        Err(_) => {
            let nothing: Vec<DynamicValue> = Vec::new();
            assert(pairs(nothing.deep_view()) =~= Seq::empty());
            C::from_elements(&nothing)
        },
    }
}

} // verus!
