//! The manager: the daemon's entry point, which lists technologies and
//! services and holds the state of the whole system.

use crate::api::service::{Properties as ServiceProperties, PropertiesView as ServicePropertiesView};
use crate::api::technology::{
    Properties as TechnologyProperties, PropertiesView as TechnologyPropertiesView,
};
use crate::api::{
    cast_property, get_property, get_property_fromstr, outcome, parsed_property, Cast,
    FromProperties, Parse, PropertyError, PropertyErrorView,
};
use crate::signal::{
    changed_property, get_changed_property, get_typed_value, signal_outcome, typed_value,
    Classified, ClassifiedView, NoMatch, SignalError, SignalErrorView,
};
use crate::text::text_eq;
use crate::value::{lemma_array_view, DynamicValue, PropertyMap, Value};
use vstd::prelude::*;

verus! {

/// The connection state of the whole system.
#[derive(Clone, Copy, Debug, PartialEq, Eq)]
pub enum State {
    Offline,
    Idle,
    Ready,
    Online,
}

impl DeepView for State {
    type V = State;

    open spec fn deep_view(&self) -> State {
        *self
    }
}

impl Parse for State {
    open spec fn parsed(text: Seq<char>) -> Option<State> {
        if text == "offline"@ {
            Some(State::Offline)
        } else if text == "idle"@ {
            Some(State::Idle)
        } else if text == "ready"@ {
            Some(State::Ready)
        } else if text == "online"@ {
            Some(State::Online)
        } else {
            None
        }
    }

    fn from_str(s: &str) -> (value: Option<State>)
        ensures
            value.deep_view() == Self::parsed(s@),
    {
        if text_eq(s, "offline") {
            Some(State::Offline)
        } else if text_eq(s, "idle") {
            Some(State::Idle)
        } else if text_eq(s, "ready") {
            Some(State::Ready)
        } else if text_eq(s, "online") {
            Some(State::Online)
        } else {
            None
        }
    }
}

impl State {
    /// The spelling of this value on the wire.
    pub open spec fn wire_name(self) -> Seq<char> {
        match self {
            State::Offline => "offline"@,
            State::Idle => "idle"@,
            State::Ready => "ready"@,
            State::Online => "online"@,
        }
    }

    /// The spelling of this value on the wire.
    pub fn name(self) -> (name: &'static str)
        ensures
            name@ == self.wire_name(),
    {
        match self {
            State::Offline => "offline",
            State::Idle => "idle",
            State::Ready => "ready",
            State::Online => "online",
        }
    }
}

impl State {
    /// No two values share a spelling, and each spelling reads as its own.
    pub proof fn lemma_names_differ()
        ensures
            forall|a: State, b: State|
                #[trigger] a.wire_name() == #[trigger] b.wire_name() ==> a == b,
            forall|a: State| State::parsed(#[trigger] a.wire_name()) == Some(a),
    {
        reveal_strlit("offline");
        reveal_strlit("idle");
        reveal_strlit("ready");
        reveal_strlit("online");
        assert("offline"@.len() == 7);
        assert("idle"@.len() == 4);
        assert("ready"@.len() == 5);
        assert("online"@.len() == 6);
    }
}
/// The properties of the manager.
#[derive(Clone, Copy, Debug, PartialEq, Eq)]
pub enum PropertyKind {
    State,
    OfflineMode,
    SessionMode,
}

impl DeepView for PropertyKind {
    type V = PropertyKind;

    open spec fn deep_view(&self) -> PropertyKind {
        *self
    }
}

impl Parse for PropertyKind {
    open spec fn parsed(text: Seq<char>) -> Option<PropertyKind> {
        if text == "State"@ {
            Some(PropertyKind::State)
        } else if text == "OfflineMode"@ {
            Some(PropertyKind::OfflineMode)
        } else if text == "SessionMode"@ {
            Some(PropertyKind::SessionMode)
        } else {
            None
        }
    }

    fn from_str(s: &str) -> (value: Option<PropertyKind>)
        ensures
            value.deep_view() == Self::parsed(s@),
    {
        if text_eq(s, "State") {
            Some(PropertyKind::State)
        } else if text_eq(s, "OfflineMode") {
            Some(PropertyKind::OfflineMode)
        } else if text_eq(s, "SessionMode") {
            Some(PropertyKind::SessionMode)
        } else {
            None
        }
    }
}

impl PropertyKind {
    /// The spelling of this value on the wire.
    pub open spec fn wire_name(self) -> Seq<char> {
        match self {
            PropertyKind::State => "State"@,
            PropertyKind::OfflineMode => "OfflineMode"@,
            PropertyKind::SessionMode => "SessionMode"@,
        }
    }

    /// The spelling of this value on the wire.
    pub fn name(self) -> (name: &'static str)
        ensures
            name@ == self.wire_name(),
    {
        match self {
            PropertyKind::State => "State",
            PropertyKind::OfflineMode => "OfflineMode",
            PropertyKind::SessionMode => "SessionMode",
        }
    }
}

impl PropertyKind {
    /// No two properties share a spelling, and each spelling reads as its own.
    pub proof fn lemma_names_differ()
        ensures
            forall|a: PropertyKind, b: PropertyKind|
                #[trigger] a.wire_name() == #[trigger] b.wire_name() ==> a == b,
            forall|a: PropertyKind| PropertyKind::parsed(#[trigger] a.wire_name()) == Some(a),
    {
        reveal_strlit("State");
        reveal_strlit("OfflineMode");
        reveal_strlit("SessionMode");
        assert("State"@.len() == 5);
        assert("OfflineMode"@.len() == 11);
        assert("SessionMode"@.len() == 11);
        assert("OfflineMode"@[0] == 'O');
        assert("SessionMode"@[0] == 'S');
    }
}

impl FromProperties for State {
    open spec fn extracted(properties: Map<Seq<char>, Value>, name: Seq<char>) -> Result<
        State,
        PropertyErrorView,
    > {
        parsed_property::<State>(properties, name)
    }

    fn from_properties(properties: &PropertyMap, prop_name: &str) -> (result: Result<
        State,
        PropertyError,
    >)
        ensures
            outcome(result) == Self::extracted(properties.deep_view(), prop_name@),
    {
        get_property_fromstr::<State>(properties, prop_name)
    }

    proof fn lemma_extracted_error(properties: Map<Seq<char>, Value>, name: Seq<char>) {
    }
}

/// The state of the system, from a snapshot of the manager's properties.
pub fn get_state(properties: &PropertyMap) -> (result: Result<State, PropertyError>)
    ensures
        outcome(result) == parsed_property::<State>(
            properties.deep_view(),
            PropertyKind::State.wire_name(),
        ),
{
    get_property_fromstr::<State>(properties, PropertyKind::State.name())
}

/// Whether all radios are off, from a snapshot of the manager's properties.
pub fn get_offline_mode(properties: &PropertyMap) -> (result: Result<bool, PropertyError>)
    ensures
        outcome(result) == cast_property::<bool>(
            properties.deep_view(),
            PropertyKind::OfflineMode.wire_name(),
        ),
{
    get_property::<bool>(properties, PropertyKind::OfflineMode.name())
}

/// The objects of `listed` whose snapshots assemble, in their order: each
/// with its path and what its snapshot assembles to.
pub open spec fn assembled_objects<V>(
    listed: Seq<(Seq<char>, Map<Seq<char>, Value>)>,
    assembled: spec_fn(Map<Seq<char>, Value>) -> Result<V, PropertyErrorView>,
) -> Seq<(Seq<char>, V)>
    decreases listed.len(),
{
    if listed.len() == 0 {
        Seq::empty()
    } else {
        let before = assembled_objects(listed.drop_last(), assembled);
        match assembled(listed.last().1) {
            Ok(properties) => before.push((listed.last().0, properties)),
            Err(_) => before,
        }
    }
}

/// One more object is kept if its snapshot assembles.
pub proof fn lemma_assembled_objects_push<V>(
    listed: Seq<(Seq<char>, Map<Seq<char>, Value>)>,
    object: (Seq<char>, Map<Seq<char>, Value>),
    assembled: spec_fn(Map<Seq<char>, Value>) -> Result<V, PropertyErrorView>,
)
    ensures
        assembled_objects(listed.push(object), assembled) == match assembled(object.1) {
            Ok(properties) => assembled_objects(listed, assembled).push((object.0, properties)),
            Err(_) => assembled_objects(listed, assembled),
        },
{
    assert(listed.push(object).drop_last() =~= listed);
}

/// How a technology's snapshot assembles.
pub open spec fn technology_rule() -> spec_fn(Map<Seq<char>, Value>) -> Result<
    TechnologyPropertiesView,
    PropertyErrorView,
> {
    |snapshot: Map<Seq<char>, Value>| TechnologyProperties::assembled(snapshot)
}

/// How a service's snapshot assembles.
pub open spec fn service_rule() -> spec_fn(Map<Seq<char>, Value>) -> Result<
    ServicePropertiesView,
    PropertyErrorView,
> {
    |snapshot: Map<Seq<char>, Value>| ServiceProperties::assembled(snapshot)
}

/// The technologies among the objects that the daemon listed: each object
/// whose snapshot assembles, with its path. An object whose snapshot does
/// not assemble is left out.
pub fn get_technologies(listed: &Vec<(String, PropertyMap)>) -> (technologies: Vec<
    (String, TechnologyProperties),
>)
    ensures
        technologies.deep_view() == assembled_objects(listed.deep_view(), technology_rule()),
{
    let ghost all = listed.deep_view();
    let mut technologies: Vec<(String, TechnologyProperties)> = Vec::new();
    let mut i: usize = 0;
    assert(technologies.deep_view() =~= Seq::empty());
    assert(all.take(0) =~= Seq::empty());
    while i < listed.len()
        invariant
            i <= listed.len(),
            all == listed.deep_view(),
            technologies.deep_view() == assembled_objects(all.take(i as int), technology_rule()),
        decreases listed.len() - i,
    {
        let ghost before = technologies.deep_view();
        proof {
            assert(all.take(i + 1) =~= all.take(i as int).push(all[i as int]));
            lemma_assembled_objects_push(all.take(i as int), all[i as int], technology_rule());
            assert(all[i as int] == (listed@[i as int].0@, listed@[i as int].1.deep_view()));
        }
        match TechnologyProperties::assemble(&listed[i].1) {
            Ok(properties) => {
                technologies.push((listed[i].0.clone(), properties));
                assert(technologies.deep_view() =~= before.push(
                    (listed@[i as int].0@, properties.deep_view()),
                ));
            },
            Err(_) => {},
        }
        i += 1;
    }
    assert(all.take(listed.len() as int) =~= all);
    technologies
}

/// The services among the objects that the daemon listed: each object
/// whose snapshot assembles, with its path. An object whose snapshot does
/// not assemble is left out.
pub fn get_services(listed: &Vec<(String, PropertyMap)>) -> (services: Vec<
    (String, ServiceProperties),
>)
    ensures
        services.deep_view() == assembled_objects(listed.deep_view(), service_rule()),
{
    let ghost all = listed.deep_view();
    let mut services: Vec<(String, ServiceProperties)> = Vec::new();
    let mut i: usize = 0;
    assert(services.deep_view() =~= Seq::empty());
    assert(all.take(0) =~= Seq::empty());
    while i < listed.len()
        invariant
            i <= listed.len(),
            all == listed.deep_view(),
            services.deep_view() == assembled_objects(all.take(i as int), service_rule()),
        decreases listed.len() - i,
    {
        let ghost before = services.deep_view();
        proof {
            assert(all.take(i + 1) =~= all.take(i as int).push(all[i as int]));
            lemma_assembled_objects_push(all.take(i as int), all[i as int], service_rule());
            assert(all[i as int] == (listed@[i as int].0@, listed@[i as int].1.deep_view()));
        }
        match ServiceProperties::assemble(&listed[i].1) {
            Ok(properties) => {
                services.push((listed[i].0.clone(), properties));
                assert(services.deep_view() =~= before.push(
                    (listed@[i as int].0@, properties.deep_view()),
                ));
            },
            Err(_) => {},
        }
        i += 1;
    }
    assert(all.take(listed.len() as int) =~= all);
    services
}

/// The signals of the manager. Each name is a signal of its own.
#[derive(Clone, Copy, Debug, PartialEq, Eq)]
pub enum SignalKind {
    TechnologyAdded,
    TechnologyRemoved,
    ServicesChanged,
    PropertyChanged,
    PeersChanged,
}

impl DeepView for SignalKind {
    type V = SignalKind;

    open spec fn deep_view(&self) -> SignalKind {
        *self
    }
}

impl Parse for SignalKind {
    open spec fn parsed(text: Seq<char>) -> Option<SignalKind> {
        if text == "TechnologyAdded"@ {
            Some(SignalKind::TechnologyAdded)
        } else if text == "TechnologyRemoved"@ {
            Some(SignalKind::TechnologyRemoved)
        } else if text == "ServicesChanged"@ {
            Some(SignalKind::ServicesChanged)
        } else if text == "PropertyChanged"@ {
            Some(SignalKind::PropertyChanged)
        } else if text == "PeersChanged"@ {
            Some(SignalKind::PeersChanged)
        } else {
            None
        }
    }

    fn from_str(s: &str) -> (value: Option<SignalKind>)
        ensures
            value.deep_view() == Self::parsed(s@),
    {
        if text_eq(s, "TechnologyAdded") {
            Some(SignalKind::TechnologyAdded)
        } else if text_eq(s, "TechnologyRemoved") {
            Some(SignalKind::TechnologyRemoved)
        } else if text_eq(s, "ServicesChanged") {
            Some(SignalKind::ServicesChanged)
        } else if text_eq(s, "PropertyChanged") {
            Some(SignalKind::PropertyChanged)
        } else if text_eq(s, "PeersChanged") {
            Some(SignalKind::PeersChanged)
        } else {
            None
        }
    }
}

impl SignalKind {
    /// The spelling of this value on the wire.
    pub open spec fn wire_name(self) -> Seq<char> {
        match self {
            SignalKind::TechnologyAdded => "TechnologyAdded"@,
            SignalKind::TechnologyRemoved => "TechnologyRemoved"@,
            SignalKind::ServicesChanged => "ServicesChanged"@,
            SignalKind::PropertyChanged => "PropertyChanged"@,
            SignalKind::PeersChanged => "PeersChanged"@,
        }
    }

    /// The spelling of this value on the wire.
    pub fn name(self) -> (name: &'static str)
        ensures
            name@ == self.wire_name(),
    {
        match self {
            SignalKind::TechnologyAdded => "TechnologyAdded",
            SignalKind::TechnologyRemoved => "TechnologyRemoved",
            SignalKind::ServicesChanged => "ServicesChanged",
            SignalKind::PropertyChanged => "PropertyChanged",
            SignalKind::PeersChanged => "PeersChanged",
        }
    }
}

impl SignalKind {
    /// No two signals share a spelling, and each spelling reads as its own.
    pub proof fn lemma_names_differ()
        ensures
            forall|a: SignalKind, b: SignalKind|
                #[trigger] a.wire_name() == #[trigger] b.wire_name() ==> a == b,
            forall|a: SignalKind| SignalKind::parsed(#[trigger] a.wire_name()) == Some(a),
    {
        reveal_strlit("TechnologyAdded");
        reveal_strlit("TechnologyRemoved");
        reveal_strlit("ServicesChanged");
        reveal_strlit("PropertyChanged");
        reveal_strlit("PeersChanged");
        assert("TechnologyAdded"@.len() == 15);
        assert("TechnologyRemoved"@.len() == 17);
        assert("ServicesChanged"@.len() == 15);
        assert("PropertyChanged"@.len() == 15);
        assert("PeersChanged"@.len() == 12);
        assert("TechnologyAdded"@[0] == 'T');
        assert("ServicesChanged"@[0] == 'S');
        assert("PropertyChanged"@[0] == 'P');
    }
}

/// The mathematical content of a [`Property`].
pub ghost enum PropertyView {
    State(State),
    OfflineMode(bool),
    SessionMode(bool),
}

/// One property of the manager with its value.
#[derive(Clone, Debug)]
pub enum Property {
    State(State),
    OfflineMode(bool),
    SessionMode(bool),
}

impl DeepView for Property {
    type V = PropertyView;

    open spec fn deep_view(&self) -> PropertyView {
        match self {
            Property::State(value) => PropertyView::State(value.deep_view()),
            Property::OfflineMode(value) => PropertyView::OfflineMode(value.deep_view()),
            Property::SessionMode(value) => PropertyView::SessionMode(value.deep_view()),
        }
    }
}

impl Property {
    /// The property of this name with this value. The name selects the
    /// kind of value that is expected; a name that is not known, or a
    /// value of another kind, is an error.
    pub open spec fn decoded(name: Seq<char>, value: Value) -> Result<
        PropertyView,
        SignalErrorView,
    > {
        match PropertyKind::parsed(name) {
            None => Err(SignalErrorView::UnknownProperty(name)),
            Some(PropertyKind::State) => match typed_value::<State>(name, value) {
                Ok(typed) => Ok(PropertyView::State(typed)),
                Err(error) => Err(error),
            },
            Some(PropertyKind::OfflineMode) => match typed_value::<bool>(name, value) {
                Ok(typed) => Ok(PropertyView::OfflineMode(typed)),
                Err(error) => Err(error),
            },
            Some(PropertyKind::SessionMode) => match typed_value::<bool>(name, value) {
                Ok(typed) => Ok(PropertyView::SessionMode(typed)),
                Err(error) => Err(error),
            },
        }
    }

    /// Decodes the property of this name with this value.
    pub fn decode(name: &str, value: &DynamicValue) -> (result: Result<Property, SignalError>)
        ensures
            signal_outcome(result) == Property::decoded(name@, value.deep_view()),
    {
        match PropertyKind::from_str(name) {
            None => Err(SignalError::UnknownProperty(name.to_owned())),
            Some(PropertyKind::State) => match get_typed_value::<State>(name, value) {
                Ok(typed) => Ok(Property::State(typed)),
                Err(error) => Err(error),
            },
            Some(PropertyKind::OfflineMode) => match get_typed_value::<bool>(name, value) {
                Ok(typed) => Ok(Property::OfflineMode(typed)),
                Err(error) => Err(error),
            },
            Some(PropertyKind::SessionMode) => match get_typed_value::<bool>(name, value) {
                Ok(typed) => Ok(Property::SessionMode(typed)),
                Err(error) => Err(error),
            },
        }
    }
}

/// The object that a pair of a path and a dictionary describes.
pub open spec fn object(value: Value) -> Option<(Seq<char>, Map<Seq<char>, Value>)> {
    match value {
        Value::Array(items) => if items.len() == 2 && items[0] is Str && items[1] is Dict {
            Some((items[0]->Str_0, items[1].mapping()->0))
        } else {
            None
        },
        _ => None,
    }
}

/// The objects that an array of such pairs describes, in order.
pub open spec fn objects(value: Value) -> Option<Seq<(Seq<char>, Map<Seq<char>, Value>)>> {
    match value {
        Value::Array(items) => if forall|i: int|
            0 <= i < items.len() ==> (#[trigger] object(items[i])) is Some {
            Some(Seq::new(items.len(), |i: int| object(items[i])->0))
        } else {
            None
        },
        _ => None,
    }
}

/// Reads one object: an array of a path and a dictionary.
pub fn get_object(value: &DynamicValue) -> (result: Option<(String, PropertyMap)>)
    ensures
        result.deep_view() == object(value.deep_view()),
{
    match value {
        DynamicValue::Array(items) => {
            proof {
                lemma_array_view(*items);
            }
            if items.len() != 2 {
                return None;
            }
            assert(items.deep_view()[0] == items@[0].deep_view());
            assert(items.deep_view()[1] == items@[1].deep_view());
            match (items[0].as_str(), PropertyMap::from_dict(&items[1])) {
                (Some(path), Some(properties)) => Some((path.to_owned(), properties)),
                _ => None,
            }
        },
        _ => None,
    }
}

/// Reads a list of objects.
pub fn get_objects(value: &DynamicValue) -> (result: Option<Vec<(String, PropertyMap)>>)
    ensures
        result.deep_view() == objects(value.deep_view()),
{
    match value {
        DynamicValue::Array(items) => {
            let ghost want = items.deep_view();
            proof {
                lemma_array_view(*items);
            }
            let mut out: Vec<(String, PropertyMap)> = Vec::new();
            let mut i: usize = 0;
            while i < items.len()
                invariant
                    i <= items.len(),
                    out.len() == i,
                    want == items.deep_view(),
                    value.deep_view() == Value::Array(want),
                    forall|j: int| 0 <= j < i ==> object(want[j]) == Some(
                        #[trigger] out@[j].deep_view(),
                    ),
                decreases items.len() - i,
            {
                let read = get_object(&items[i]);
                assert(want[i as int] == items@[i as int].deep_view());
                match read {
                    Some(read) => {
                        out.push(read);
                    },
                    None => {
                        assert(object(want[i as int]) is None);
                        return None;
                    },
                }
                i += 1;
            }
            proof {
                let got = objects(value.deep_view());
                assert forall|j: int|
                    0 <= j < want.len() implies (#[trigger] object(want[j])) is Some by {
                    assert(object(want[j]) == Some(out@[j].deep_view()));
                }
                assert(got is Some);
                assert(out.deep_view() =~= got->0);
            }
            Some(out)
        },
        _ => None,
    }
}

/// The mathematical content of a [`Signal`].
pub ghost enum SignalView {
    TechnologyAdded(Seq<char>, Map<Seq<char>, Value>),
    TechnologyRemoved(Seq<char>),
    ServicesChanged(Seq<(Seq<char>, Map<Seq<char>, Value>)>, Seq<Seq<char>>),
    PropertyChanged(PropertyView),
    PeersChanged(Seq<(Seq<char>, Map<Seq<char>, Value>)>, Seq<Seq<char>>),
}

/// A signal of the manager.
pub enum Signal {
    /// A technology has appeared: its path and its properties.
    TechnologyAdded(String, PropertyMap),
    /// The technology at this path is gone.
    TechnologyRemoved(String),
    /// The list of services has changed: the services that are new or
    /// have changed, each with its path and properties, and the paths of
    /// those that are gone.
    ServicesChanged(Vec<(String, PropertyMap)>, Vec<String>),
    /// A property of the manager has a new value.
    PropertyChanged(Property),
    /// The list of peers has changed, told as for services.
    PeersChanged(Vec<(String, PropertyMap)>, Vec<String>),
}

impl DeepView for Signal {
    type V = SignalView;

    open spec fn deep_view(&self) -> SignalView {
        match self {
            Signal::TechnologyAdded(path, properties) => SignalView::TechnologyAdded(
                path@,
                properties.deep_view(),
            ),
            Signal::TechnologyRemoved(path) => SignalView::TechnologyRemoved(path@),
            Signal::ServicesChanged(changed, removed) => SignalView::ServicesChanged(
                changed.deep_view(),
                removed.deep_view(),
            ),
            Signal::PropertyChanged(property) => SignalView::PropertyChanged(property.deep_view()),
            Signal::PeersChanged(changed, removed) => SignalView::PeersChanged(
                changed.deep_view(),
                removed.deep_view(),
            ),
        }
    }
}

/// The two lists that the arguments of a change of a list give: the
/// objects that are new or have changed, and the paths of those that are
/// gone.
pub open spec fn changed_list(args: Seq<Value>) -> Option<
    (Seq<(Seq<char>, Map<Seq<char>, Value>)>, Seq<Seq<char>>),
> {
    if args.len() == 2 && objects(args[0]) is Some && <Vec<String> as Cast>::cast_of(
        args[1],
    ) is Some {
        Some((objects(args[0])->0, <Vec<String> as Cast>::cast_of(args[1])->0))
    } else {
        None
    }
}

/// Takes the arguments of a change of a list apart.
pub fn get_changed_list(args: &Vec<DynamicValue>) -> (result: Option<
    (Vec<(String, PropertyMap)>, Vec<String>),
>)
    ensures
        result.deep_view() == changed_list(args.deep_view()),
{
    if args.len() != 2 {
        return None;
    }
    assert(args.deep_view()[0] == args@[0].deep_view());
    assert(args.deep_view()[1] == args@[1].deep_view());
    match (get_objects(&args[0]), Vec::<String>::cast(&args[1])) {
        (Some(changed), Some(removed)) => Some((changed, removed)),
        _ => None,
    }
}

impl Signal {
    /// What a message of the manager with this member and these arguments
    /// is. A member that names no signal is not applicable; arguments that
    /// do not have the signal's form make the message malformed.
    pub open spec fn classified(member: Seq<char>, args: Seq<Value>) -> ClassifiedView<SignalView> {
        match SignalKind::parsed(member) {
            None => ClassifiedView::NotApplicable(NoMatch::Signal),
            Some(SignalKind::TechnologyAdded) => if args.len() == 2 && args[0] is Str
                && args[1] is Dict {
                ClassifiedView::Decoded(
                    SignalView::TechnologyAdded(args[0]->Str_0, args[1].mapping()->0),
                )
            } else {
                ClassifiedView::Malformed(SignalErrorView::Arguments)
            },
            Some(SignalKind::TechnologyRemoved) => if args.len() == 1 && args[0] is Str {
                ClassifiedView::Decoded(SignalView::TechnologyRemoved(args[0]->Str_0))
            } else {
                ClassifiedView::Malformed(SignalErrorView::Arguments)
            },
            Some(SignalKind::ServicesChanged) => match changed_list(args) {
                Some((changed, removed)) => ClassifiedView::Decoded(
                    SignalView::ServicesChanged(changed, removed),
                ),
                None => ClassifiedView::Malformed(SignalErrorView::Arguments),
            },
            Some(SignalKind::PropertyChanged) => match changed_property(args) {
                None => ClassifiedView::Malformed(SignalErrorView::Arguments),
                Some((name, value)) => match Property::decoded(name, value) {
                    Ok(property) => ClassifiedView::Decoded(SignalView::PropertyChanged(property)),
                    Err(error) => ClassifiedView::Malformed(error),
                },
            },
            Some(SignalKind::PeersChanged) => match changed_list(args) {
                Some((changed, removed)) => ClassifiedView::Decoded(
                    SignalView::PeersChanged(changed, removed),
                ),
                None => ClassifiedView::Malformed(SignalErrorView::Arguments),
            },
        }
    }

    /// Classifies a message of the manager.
    pub fn decode(member: &str, args: &Vec<DynamicValue>) -> (result: Classified<Signal>)
        ensures
            result.deep_view() == Signal::classified(member@, args.deep_view()),
    {
        let kind = match SignalKind::from_str(member) {
            Some(kind) => kind,
            None => return Classified::NotApplicable(NoMatch::Signal),
        };
        proof {
            if args.len() > 0 {
                assert(args.deep_view()[0] == args@[0].deep_view());
            }
            if args.len() > 1 {
                assert(args.deep_view()[1] == args@[1].deep_view());
            }
        }
        match kind {
            SignalKind::TechnologyAdded => {
                if args.len() != 2 {
                    return Classified::Malformed(SignalError::Arguments);
                }
                match (args[0].as_str(), PropertyMap::from_dict(&args[1])) {
                    (Some(path), Some(properties)) => Classified::Decoded(
                        Signal::TechnologyAdded(path.to_owned(), properties),
                    ),
                    _ => Classified::Malformed(SignalError::Arguments),
                }
            },
            SignalKind::TechnologyRemoved => {
                if args.len() != 1 {
                    return Classified::Malformed(SignalError::Arguments);
                }
                match args[0].as_str() {
                    Some(path) => Classified::Decoded(Signal::TechnologyRemoved(path.to_owned())),
                    None => Classified::Malformed(SignalError::Arguments),
                }
            },
            SignalKind::ServicesChanged => match get_changed_list(args) {
                Some((changed, removed)) => Classified::Decoded(
                    Signal::ServicesChanged(changed, removed),
                ),
                None => Classified::Malformed(SignalError::Arguments),
            },
            SignalKind::PropertyChanged => match get_changed_property(args) {
                None => Classified::Malformed(SignalError::Arguments),
                Some((name, value)) => match Property::decode(name, value) {
                    Ok(property) => Classified::Decoded(Signal::PropertyChanged(property)),
                    Err(error) => Classified::Malformed(error),
                },
            },
            SignalKind::PeersChanged => match get_changed_list(args) {
                Some((changed, removed)) => Classified::Decoded(
                    Signal::PeersChanged(changed, removed),
                ),
                None => Classified::Malformed(SignalError::Arguments),
            },
        }
    }
}

} // verus!
