//! Reading typed properties out of a snapshot.
//!
//! Every accessor finds a property by its name and turns its value into
//! the type asked for. It fails in one of two ways: the snapshot lacks the
//! property, or the property holds a value of another kind.

pub mod composite;
pub mod manager;
pub mod service;
pub mod technology;

use crate::text::{decimal_u8, parse_u8};
use crate::value::{lemma_array_view, DynamicValue, PropertyMap, Value};
use vstd::prelude::*;

verus! {

/// The mathematical content of a [`PropertyError`].
pub ghost enum PropertyErrorView {
    NotPresent(Seq<char>),
    Cast(Seq<char>),
}

/// Why a property could not be read. Both variants hold the property's
/// name, never its value.
#[derive(Debug, Clone, PartialEq, Eq)]
pub enum PropertyError {
    /// The snapshot has no property of this name.
    NotPresent(String),
    /// The property is there, but its value is not of the kind asked for.
    Cast(String),
}

impl DeepView for PropertyError {
    type V = PropertyErrorView;

    open spec fn deep_view(&self) -> PropertyErrorView {
        match self {
            PropertyError::NotPresent(name) => PropertyErrorView::NotPresent(name@),
            PropertyError::Cast(name) => PropertyErrorView::Cast(name@),
        }
    }
}

impl PropertyError {
    /// The name of the property that could not be read.
    pub fn name(&self) -> (name: &str)
        ensures
            name@ == match self.deep_view() {
                PropertyErrorView::NotPresent(n) => n,
                PropertyErrorView::Cast(n) => n,
            },
    {
        match self {
            PropertyError::NotPresent(name) => name.as_str(),
            PropertyError::Cast(name) => name.as_str(),
        }
    }

    /// The error as a sentence for a log or a user.
    pub fn message(&self) -> (text: String)
        ensures
            text@ == match self.deep_view() {
                PropertyErrorView::NotPresent(n) => "Property not present: '"@ + n + "'"@,
                PropertyErrorView::Cast(n) => "Failed to cast property: '"@ + n + "'"@,
            },
    {
        match self {
            PropertyError::NotPresent(name) => quoted("Property not present: '", name.as_str()),
            PropertyError::Cast(name) => quoted("Failed to cast property: '", name.as_str()),
        }
    }
}

/// The text `before`, then `name`, then a closing quotation mark.
fn quoted(before: &str, name: &str) -> (text: String)
    ensures
        text@ == before@ + name@ + "'"@,
{
    let opened = vstd::string::StringExecFns::concat(before.to_owned(), name);
    vstd::string::StringExecFns::concat(opened, "'")
}

/// The mathematical content of an accessor's result.
pub open spec fn outcome<T: DeepView>(result: Result<T, PropertyError>) -> Result<
    T::V,
    PropertyErrorView,
> {
    match result {
        Ok(value) => Ok(value.deep_view()),
        Err(error) => Err(error.deep_view()),
    }
}

/// A type that a value can be taken as, by its wire type alone: nothing is
/// widened or parsed.
pub trait Cast: Sized + DeepView {
    /// What `value` is as this type, if it is of this type.
    spec fn cast_of(value: Value) -> Option<Self::V>;

    /// Takes `value` as this type.
    fn cast(value: &DynamicValue) -> (cast: Option<Self>)
        ensures
            cast.deep_view() == Self::cast_of(value.deep_view()),
    ;
}

impl Cast for bool {
    open spec fn cast_of(value: Value) -> Option<bool> {
        match value {
            Value::Bool(b) => Some(b),
            _ => None,
        }
    }

    fn cast(value: &DynamicValue) -> (cast: Option<bool>)
        ensures
            cast.deep_view() == Self::cast_of(value.deep_view()),
    {
        match value {
            DynamicValue::Bool(b) => Some(*b),
            _ => None,
        }
    }
}

impl Cast for u8 {
    open spec fn cast_of(value: Value) -> Option<u8> {
        match value {
            Value::U8(n) => Some(n),
            _ => None,
        }
    }

    fn cast(value: &DynamicValue) -> (cast: Option<u8>)
        ensures
            cast.deep_view() == Self::cast_of(value.deep_view()),
    {
        match value {
            DynamicValue::U8(n) => Some(*n),
            _ => None,
        }
    }
}

impl Cast for String {
    open spec fn cast_of(value: Value) -> Option<Seq<char>> {
        value.text()
    }

    fn cast(value: &DynamicValue) -> (cast: Option<String>)
        ensures
            cast.deep_view() == Self::cast_of(value.deep_view()),
    {
        match value {
            DynamicValue::Str(s) => Some(s.clone()),
            _ => None,
        }
    }
}

impl<T: Cast> Cast for Vec<T> {
    open spec fn cast_of(value: Value) -> Option<Seq<T::V>> {
        match value {
            Value::Array(items) => if forall|i: int|
                0 <= i < items.len() ==> (#[trigger] T::cast_of(items[i])) is Some {
                Some(Seq::new(items.len(), |i: int| T::cast_of(items[i])->0))
            } else {
                None
            },
            _ => None,
        }
    }

    fn cast(value: &DynamicValue) -> (cast: Option<Vec<T>>)
        ensures
            cast.deep_view() == Self::cast_of(value.deep_view()),
    {
        match value {
            DynamicValue::Array(items) => {
                let ghost want = items.deep_view();
                proof {
                    lemma_array_view(*items);
                    assert(value.deep_view() == Value::Array(want));
                }
                let mut out: Vec<T> = Vec::new();
                let mut i: usize = 0;
                while i < items.len()
                    invariant
                        i <= items.len(),
                        out.len() == i,
                        want == items.deep_view(),
                        value.deep_view() == Value::Array(want),
                        forall|j: int|
                            0 <= j < i ==> T::cast_of(want[j]) == Some(
                                #[trigger] out@[j].deep_view(),
                            ),
                    decreases items.len() - i,
                {
                    let item = T::cast(&items[i]);
                    assert(want[i as int] == items@[i as int].deep_view());
                    match item {
                        Some(item) => {
                            out.push(item);
                        },
                        None => {
                            assert(T::cast_of(want[i as int]) is None);
                            return None;
                        },
                    }
                    i += 1;
                }
                proof {
                    let got = Self::cast_of(value.deep_view());
                    assert forall|j: int| 0 <= j < want.len() implies (#[trigger] T::cast_of(
                        want[j],
                    )) is Some by {
                        assert(T::cast_of(want[j]) == Some(out@[j].deep_view()));
                    }
                    assert(got is Some);
                    assert(out.deep_view() =~= got->0);
                }
                Some(out)
            },
            _ => None,
        }
    }
}

/// The array of the strings `texts`.
pub open spec fn text_list(texts: Seq<Seq<char>>) -> Value {
    Value::Array(Seq::new(texts.len(), |i: int| Value::Str(texts[i])))
}

/// An array of strings casts to the list of its strings.
pub proof fn lemma_text_list_cast(texts: Seq<Seq<char>>)
    ensures
        <Vec<String> as Cast>::cast_of(text_list(texts)) == Some(texts),
{
    let items = text_list(texts)->Array_0;
    assert forall|i: int| 0 <= i < items.len() implies (#[trigger] <String as Cast>::cast_of(
        items[i],
    )) is Some by {}
    assert(<Vec<String> as Cast>::cast_of(text_list(texts))->0 =~= texts);
}

/// A value of a wire type that nothing here reads is no text, no number
/// and no container, and casts to nothing: a property that holds it is
/// there, and is of the wrong kind for whoever asks.
pub proof fn lemma_other_reads_as_nothing()
    ensures
        Value::Other.text() is None,
        Value::Other.unsigned() is None,
        Value::Other.elements() is None,
        Value::Other.mapping() is None,
        <bool as Cast>::cast_of(Value::Other) is None,
        <u8 as Cast>::cast_of(Value::Other) is None,
        <String as Cast>::cast_of(Value::Other) is None,
        <Vec<String> as Cast>::cast_of(Value::Other) is None,
{
}

/// A type that is read from a string.
pub trait Parse: Sized + DeepView {
    /// What `text` stands for, if it stands for a value of this type.
    spec fn parsed(text: Seq<char>) -> Option<Self::V>;

    /// Reads a value of this type from `s`.
    fn from_str(s: &str) -> (value: Option<Self>)
        ensures
            value.deep_view() == Self::parsed(s@),
    ;
}

impl Parse for u8 {
    open spec fn parsed(text: Seq<char>) -> Option<u8> {
        decimal_u8(text)
    }

    fn from_str(s: &str) -> (value: Option<u8>)
        ensures
            value.deep_view() == Self::parsed(s@),
    {
        parse_u8(s)
    }
}

impl Parse for String {
    open spec fn parsed(text: Seq<char>) -> Option<Seq<char>> {
        Some(text)
    }

    fn from_str(s: &str) -> (value: Option<String>) {
        Some(s.to_owned())
    }
}

/// What [`get_property`] yields: the property's value taken as `T`.
pub open spec fn cast_property<T: Cast>(
    properties: Map<Seq<char>, Value>,
    name: Seq<char>,
) -> Result<T::V, PropertyErrorView> {
    if !properties.contains_key(name) {
        Err(PropertyErrorView::NotPresent(name))
    } else {
        match T::cast_of(properties[name]) {
            Some(value) => Ok(value),
            None => Err(PropertyErrorView::Cast(name)),
        }
    }
}

/// What [`get_property_fromstr`] yields: the property's text read as `T`.
pub open spec fn parsed_property<T: Parse>(
    properties: Map<Seq<char>, Value>,
    name: Seq<char>,
) -> Result<T::V, PropertyErrorView> {
    if !properties.contains_key(name) {
        Err(PropertyErrorView::NotPresent(name))
    } else {
        match properties[name].text() {
            Some(text) => match T::parsed(text) {
                Some(value) => Ok(value),
                None => Err(PropertyErrorView::Cast(name)),
            },
            None => Err(PropertyErrorView::Cast(name)),
        }
    }
}

/// What [`get_property_argiter`] yields: the elements of the property's
/// array or dictionary.
pub open spec fn elements_property(properties: Map<Seq<char>, Value>, name: Seq<char>) -> Result<
    Seq<Value>,
    PropertyErrorView,
> {
    if !properties.contains_key(name) {
        Err(PropertyErrorView::NotPresent(name))
    } else {
        match properties[name].elements() {
            Some(elements) => Ok(elements),
            None => Err(PropertyErrorView::Cast(name)),
        }
    }
}

/// The property `prop_name` taken as a `T`. A value of another wire type
/// is refused, also where it could be converted.
pub fn get_property<T: Cast>(properties: &PropertyMap, prop_name: &str) -> (result: Result<
    T,
    PropertyError,
>)
    ensures
        outcome(result) == cast_property::<T>(properties.deep_view(), prop_name@),
{
    match properties.get(prop_name) {
        None => Err(PropertyError::NotPresent(prop_name.to_owned())),
        Some(value) => match T::cast(value) {
            Some(cast) => Ok(cast),
            None => Err(PropertyError::Cast(prop_name.to_owned())),
        },
    }
}

/// The property `prop_name`, which must be a string, read as a `T`. Where
/// the string does not read as a `T`, the error names the property and
/// leaves the string out.
pub fn get_property_fromstr<T: Parse>(properties: &PropertyMap, prop_name: &str) -> (result: Result<
    T,
    PropertyError,
>)
    ensures
        outcome(result) == parsed_property::<T>(properties.deep_view(), prop_name@),
{
    match properties.get(prop_name) {
        None => Err(PropertyError::NotPresent(prop_name.to_owned())),
        Some(value) => match value.as_str() {
            Some(text) => match T::from_str(text) {
                Some(parsed) => Ok(parsed),
                None => Err(PropertyError::Cast(prop_name.to_owned())),
            },
            None => Err(PropertyError::Cast(prop_name.to_owned())),
        },
    }
}

/// The elements of the property `prop_name`, which must be an array or a
/// dictionary.
pub fn get_property_argiter(properties: &PropertyMap, prop_name: &str) -> (result: Result<
    Vec<DynamicValue>,
    PropertyError,
>)
    ensures
        outcome(result) == elements_property(properties.deep_view(), prop_name@),
{
    match properties.get(prop_name) {
        None => Err(PropertyError::NotPresent(prop_name.to_owned())),
        Some(value) => match value.elements() {
            Some(elements) => Ok(elements),
            None => Err(PropertyError::Cast(prop_name.to_owned())),
        },
    }
}

/// A type that knows how to read itself out of a snapshot.
pub trait FromProperties: Sized + DeepView {
    /// What reading the property `name` out of `properties` yields.
    spec fn extracted(properties: Map<Seq<char>, Value>, name: Seq<char>) -> Result<
        Self::V,
        PropertyErrorView,
    >;

    /// Reads the property `prop_name` out of `properties`.
    fn from_properties(properties: &PropertyMap, prop_name: &str) -> (result: Result<
        Self,
        PropertyError,
    >)
        ensures
            outcome(result) == Self::extracted(properties.deep_view(), prop_name@),
    ;

    /// An error names the property asked for, and says that it is missing
    /// only where it is.
    proof fn lemma_extracted_error(properties: Map<Seq<char>, Value>, name: Seq<char>)
        ensures
            Self::extracted(properties, name) matches Err(error) ==> {
                ||| error == PropertyErrorView::NotPresent(name) && !properties.contains_key(name)
                ||| error == PropertyErrorView::Cast(name) && properties.contains_key(name)
            },
    ;
}

impl FromProperties for String {
    open spec fn extracted(properties: Map<Seq<char>, Value>, name: Seq<char>) -> Result<
        Seq<char>,
        PropertyErrorView,
    > {
        parsed_property::<String>(properties, name)
    }

    fn from_properties(properties: &PropertyMap, prop_name: &str) -> (result: Result<
        String,
        PropertyError,
    >)
        ensures
            outcome(result) == Self::extracted(properties.deep_view(), prop_name@),
    {
        get_property_fromstr::<String>(properties, prop_name)
    }

    proof fn lemma_extracted_error(properties: Map<Seq<char>, Value>, name: Seq<char>) {
    }
}

impl<T: FromProperties + Cast> FromProperties for Vec<T> {
    open spec fn extracted(properties: Map<Seq<char>, Value>, name: Seq<char>) -> Result<
        Seq<T::V>,
        PropertyErrorView,
    > {
        cast_property::<Vec<T>>(properties, name)
    }

    fn from_properties(properties: &PropertyMap, prop_name: &str) -> (result: Result<
        Vec<T>,
        PropertyError,
    >)
        ensures
            outcome(result) == Self::extracted(properties.deep_view(), prop_name@),
    {
        get_property::<Vec<T>>(properties, prop_name)
    }

    proof fn lemma_extracted_error(properties: Map<Seq<char>, Value>, name: Seq<char>) {
    }
}

impl FromProperties for u8 {
    open spec fn extracted(properties: Map<Seq<char>, Value>, name: Seq<char>) -> Result<
        u8,
        PropertyErrorView,
    > {
        cast_property::<u8>(properties, name)
    }

    fn from_properties(properties: &PropertyMap, prop_name: &str) -> (result: Result<
        u8,
        PropertyError,
    >)
        ensures
            outcome(result) == Self::extracted(properties.deep_view(), prop_name@),
    {
        get_property::<u8>(properties, prop_name)
    }

    proof fn lemma_extracted_error(properties: Map<Seq<char>, Value>, name: Seq<char>) {
    }
}

impl FromProperties for bool {
    open spec fn extracted(properties: Map<Seq<char>, Value>, name: Seq<char>) -> Result<
        bool,
        PropertyErrorView,
    > {
        cast_property::<bool>(properties, name)
    }

    fn from_properties(properties: &PropertyMap, prop_name: &str) -> (result: Result<
        bool,
        PropertyError,
    >)
        ensures
            outcome(result) == Self::extracted(properties.deep_view(), prop_name@),
    {
        get_property::<bool>(properties, prop_name)
    }

    proof fn lemma_extracted_error(properties: Map<Seq<char>, Value>, name: Seq<char>) {
    }
}

impl<T: FromProperties> FromProperties for Option<T> {
    /// A missing property is no error here: it reads as `None`. A property
    /// that is there and does not read as a `T` stays an error.
    open spec fn extracted(properties: Map<Seq<char>, Value>, name: Seq<char>) -> Result<
        Option<T::V>,
        PropertyErrorView,
    > {
        match T::extracted(properties, name) {
            Ok(value) => Ok(Some(value)),
            Err(PropertyErrorView::NotPresent(_)) => Ok(None),
            Err(error) => Err(error),
        }
    }

    fn from_properties(properties: &PropertyMap, prop_name: &str) -> (result: Result<
        Option<T>,
        PropertyError,
    >)
        ensures
            outcome(result) == Self::extracted(properties.deep_view(), prop_name@),
    {
        match T::from_properties(properties, prop_name) {
            Err(PropertyError::NotPresent(_)) => Ok(None),
            Ok(value) => Ok(Some(value)),
            Err(error) => Err(error),
        }
    }

    proof fn lemma_extracted_error(properties: Map<Seq<char>, Value>, name: Seq<char>) {
        T::lemma_extracted_error(properties, name);
    }
}

/// The error of a result, if it has one.
pub open spec fn failure<T>(result: Result<T, PropertyErrorView>) -> Option<PropertyErrorView> {
    match result {
        Ok(_) => None,
        Err(error) => Some(error),
    }
}

/// The first error in a list of what each step of an assembly left.
pub open spec fn first_failure(failures: Seq<Option<PropertyErrorView>>) -> Option<
    PropertyErrorView,
>
    decreases failures.len(),
{
    if failures.len() == 0 {
        None
    } else if failures[0] is Some {
        failures[0]
    } else {
        first_failure(failures.skip(1))
    }
}

/// The first error is the one that no error comes before.
pub proof fn lemma_first_failure_at(failures: Seq<Option<PropertyErrorView>>, at: int)
    requires
        0 <= at < failures.len(),
        failures[at] is Some,
        forall|i: int| 0 <= i < at ==> failures[i] is None,
    ensures
        first_failure(failures) == failures[at],
    decreases failures.len(),
{
    if at > 0 {
        lemma_first_failure_at(failures.skip(1), at - 1);
    }
}

/// There is no first error exactly where no step left one.
pub proof fn lemma_first_failure_none(failures: Seq<Option<PropertyErrorView>>)
    ensures
        first_failure(failures) is None <==> forall|i: int|
            0 <= i < failures.len() ==> (#[trigger] failures[i]) is None,
    decreases failures.len(),
{
    if failures.len() > 0 {
        let rest = failures.skip(1);
        lemma_first_failure_none(rest);
        if failures[0] is None {
            if first_failure(rest) is None {
                assert forall|i: int|
                    0 <= i < failures.len() implies (#[trigger] failures[i]) is None by {
                    if i > 0 {
                        assert(rest[i - 1] is None);
                    }
                }
            } else {
                let i = choose|i: int| 0 <= i < rest.len() && !((#[trigger] rest[i]) is None);
                assert(failures[i + 1] is Some);
            }
        }
    }
}

/// Reading an optional property: where the property is missing the result
/// is `None`, where it reads as a `T` the result holds that value, and
/// where it is there and does not read as a `T` the result is a cast
/// error that names it. This is stated for every `T` that reports a
/// missing property as missing.
pub proof fn lemma_optional_property<T: FromProperties>(
    properties: Map<Seq<char>, Value>,
    name: Seq<char>,
)
    requires
        !properties.contains_key(name) ==> T::extracted(properties, name) is Err,
    ensures
        !properties.contains_key(name) ==> Option::<T>::extracted(properties, name) == Ok::<
            Option<T::V>,
            PropertyErrorView,
        >(None),
        T::extracted(properties, name) matches Ok(value) ==> Option::<T>::extracted(
            properties,
            name,
        ) == Ok::<Option<T::V>, PropertyErrorView>(Some(value)),
        properties.contains_key(name) && T::extracted(properties, name) is Err ==> Option::<
            T,
        >::extracted(properties, name) == Err::<Option<T::V>, PropertyErrorView>(
            PropertyErrorView::Cast(name),
        ),
{
    T::lemma_extracted_error(properties, name);
}

} // verus!
