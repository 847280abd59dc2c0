//! Technologies: the kinds of network hardware that the daemon drives.

use crate::api::{
    failure, first_failure, lemma_first_failure_at, lemma_first_failure_none, outcome,
    parsed_property, get_property_fromstr, FromProperties, Parse, PropertyError, PropertyErrorView,
};
use crate::signal::{
    changed_property, get_changed_property, get_typed_value, signal_outcome, typed_value,
    Classified, ClassifiedView, NoMatch, SignalError, SignalErrorView,
};
use crate::text::text_eq;
use crate::value::{DynamicValue, PropertyMap, Value};
use vstd::prelude::*;

verus! {

/// The properties of a technology.
#[derive(Clone, Copy, Debug, PartialEq, Eq)]
pub enum PropertyKind {
    Powered,
    Connected,
    Name,
    Type,
    Tethering,
    TetheringIdentifier,
    TetheringPassphrase,
}

impl DeepView for PropertyKind {
    type V = PropertyKind;

    open spec fn deep_view(&self) -> PropertyKind {
        *self
    }
}

impl Parse for PropertyKind {
    open spec fn parsed(text: Seq<char>) -> Option<PropertyKind> {
        if text == "Powered"@ {
            Some(PropertyKind::Powered)
        } else if text == "Connected"@ {
            Some(PropertyKind::Connected)
        } else if text == "Name"@ {
            Some(PropertyKind::Name)
        } else if text == "Type"@ {
            Some(PropertyKind::Type)
        } else if text == "Tethering"@ {
            Some(PropertyKind::Tethering)
        } else if text == "TetheringIdentifier"@ {
            Some(PropertyKind::TetheringIdentifier)
        } else if text == "TetheringPassphrase"@ {
            Some(PropertyKind::TetheringPassphrase)
        } else {
            None
        }
    }

    fn from_str(s: &str) -> (value: Option<PropertyKind>)
        ensures
            value.deep_view() == Self::parsed(s@),
    {
        if text_eq(s, "Powered") {
            Some(PropertyKind::Powered)
        } else if text_eq(s, "Connected") {
            Some(PropertyKind::Connected)
        } else if text_eq(s, "Name") {
            Some(PropertyKind::Name)
        } else if text_eq(s, "Type") {
            Some(PropertyKind::Type)
        } else if text_eq(s, "Tethering") {
            Some(PropertyKind::Tethering)
        } else if text_eq(s, "TetheringIdentifier") {
            Some(PropertyKind::TetheringIdentifier)
        } else if text_eq(s, "TetheringPassphrase") {
            Some(PropertyKind::TetheringPassphrase)
        } else {
            None
        }
    }
}

impl PropertyKind {
    /// The spelling of this value on the wire.
    pub open spec fn wire_name(self) -> Seq<char> {
        match self {
            PropertyKind::Powered => "Powered"@,
            PropertyKind::Connected => "Connected"@,
            PropertyKind::Name => "Name"@,
            PropertyKind::Type => "Type"@,
            PropertyKind::Tethering => "Tethering"@,
            PropertyKind::TetheringIdentifier => "TetheringIdentifier"@,
            PropertyKind::TetheringPassphrase => "TetheringPassphrase"@,
        }
    }

    /// The spelling of this value on the wire.
    pub fn name(self) -> (name: &'static str)
        ensures
            name@ == self.wire_name(),
    {
        match self {
            PropertyKind::Powered => "Powered",
            PropertyKind::Connected => "Connected",
            PropertyKind::Name => "Name",
            PropertyKind::Type => "Type",
            PropertyKind::Tethering => "Tethering",
            PropertyKind::TetheringIdentifier => "TetheringIdentifier",
            PropertyKind::TetheringPassphrase => "TetheringPassphrase",
        }
    }
}
impl PropertyKind {
    /// No two properties share a spelling, and each spelling reads as its own.
    pub proof fn lemma_names_differ()
        ensures
            forall|a: PropertyKind, b: PropertyKind|
                #[trigger] a.wire_name() == #[trigger] b.wire_name() ==> a == b,
            forall|a: PropertyKind| PropertyKind::parsed(#[trigger] a.wire_name()) == Some(a),
    {
        reveal_strlit("Powered");
        reveal_strlit("Connected");
        reveal_strlit("Name");
        reveal_strlit("Type");
        reveal_strlit("Tethering");
        reveal_strlit("TetheringIdentifier");
        reveal_strlit("TetheringPassphrase");
        assert("Powered"@.len() == 7);
        assert("Connected"@.len() == 9);
        assert("Name"@.len() == 4);
        assert("Type"@.len() == 4);
        assert("Tethering"@.len() == 9);
        assert("TetheringIdentifier"@.len() == 19);
        assert("TetheringPassphrase"@.len() == 19);
        assert("Connected"@[0] == 'C');
        assert("Tethering"@[0] == 'T');
        assert("Name"@[0] == 'N');
        assert("Type"@[0] == 'T');
        assert("TetheringIdentifier"@[9] == 'I');
        assert("TetheringPassphrase"@[9] == 'P');
    }
}

/// The mathematical content of a [`Type`].
pub ghost enum TypeView {
    Ethernet,
    Wifi,
    P2p,
    Unknown(Seq<char>),
}

impl TypeView {
    /// The spelling of this kind on the wire.
    pub open spec fn wire_name(self) -> Seq<char> {
        match self {
            TypeView::Ethernet => "ethernet"@,
            TypeView::Wifi => "wifi"@,
            TypeView::P2p => "p2p"@,
            TypeView::Unknown(name) => name,
        }
    }
}

/// The kind of a technology. A kind that this library does not know is
/// kept as the daemon spelled it.
#[derive(Clone, Debug, PartialEq)]
pub enum Type {
    Ethernet,
    Wifi,
    P2p,
    Unknown(String),
}

impl DeepView for Type {
    type V = TypeView;

    open spec fn deep_view(&self) -> TypeView {
        match self {
            Type::Ethernet => TypeView::Ethernet,
            Type::Wifi => TypeView::Wifi,
            Type::P2p => TypeView::P2p,
            Type::Unknown(name) => TypeView::Unknown(name@),
        }
    }
}

impl Parse for Type {
    open spec fn parsed(text: Seq<char>) -> Option<TypeView> {
        if text == "ethernet"@ {
            Some(TypeView::Ethernet)
        } else if text == "wifi"@ {
            Some(TypeView::Wifi)
        } else if text == "p2p"@ {
            Some(TypeView::P2p)
        } else {
            Some(TypeView::Unknown(text))
        }
    }

    fn from_str(s: &str) -> (value: Option<Type>)
        ensures
            value.deep_view() == Self::parsed(s@),
    {
        if text_eq(s, "ethernet") {
            Some(Type::Ethernet)
        } else if text_eq(s, "wifi") {
            Some(Type::Wifi)
        } else if text_eq(s, "p2p") {
            Some(Type::P2p)
        } else {
            Some(Type::Unknown(s.to_owned()))
        }
    }
}

impl Type {
    /// The spelling of this kind on the wire.
    pub fn into_name(self) -> (name: String)
        ensures
            name@ == self.deep_view().wire_name(),
    {
        match self {
            Type::Ethernet => "ethernet".to_owned(),
            Type::Wifi => "wifi".to_owned(),
            Type::P2p => "p2p".to_owned(),
            Type::Unknown(name) => name,
        }
    }
}

impl FromProperties for Type {
    open spec fn extracted(properties: Map<Seq<char>, Value>, name: Seq<char>) -> Result<
        TypeView,
        PropertyErrorView,
    > {
        parsed_property::<Type>(properties, name)
    }

    fn from_properties(properties: &PropertyMap, prop_name: &str) -> (result: Result<
        Type,
        PropertyError,
    >)
        ensures
            outcome(result) == Self::extracted(properties.deep_view(), prop_name@),
    {
        get_property_fromstr::<Type>(properties, prop_name)
    }

    proof fn lemma_extracted_error(properties: Map<Seq<char>, Value>, name: Seq<char>) {
    }
}

/// The mathematical content of a technology's [`Properties`].
pub ghost struct PropertiesView {
    pub powered: bool,
    pub connected: bool,
    pub name: Seq<char>,
    pub type_: TypeView,
    pub tethering: bool,
    pub tethering_identifier: Option<Seq<char>>,
    pub tethering_passphrase: Option<Seq<char>>,
}

/// What the daemon says of a technology.
#[derive(Clone, Debug)]
pub struct Properties {
    /// Whether the technology is switched on.
    pub powered: bool,
    /// Whether a service of this technology is connected.
    pub connected: bool,
    /// The name for a user to read.
    pub name: String,
    /// The kind of technology.
    pub type_: Type,
    /// Whether the technology shares its connection; `false` where the
    /// daemon does not say.
    pub tethering: bool,
    /// The name of the shared network.
    pub tethering_identifier: Option<String>,
    /// The passphrase of the shared network.
    pub tethering_passphrase: Option<String>,
}

impl DeepView for Properties {
    type V = PropertiesView;

    open spec fn deep_view(&self) -> PropertiesView {
        PropertiesView {
            powered: self.powered,
            connected: self.connected,
            name: self.name@,
            type_: self.type_.deep_view(),
            tethering: self.tethering,
            tethering_identifier: self.tethering_identifier.deep_view(),
            tethering_passphrase: self.tethering_passphrase.deep_view(),
        }
    }
}

impl Properties {
    /// What each step of the assembly leaves, in the order of the steps:
    /// first the properties that must be there, then those that may be
    /// missing.
    pub open spec fn failures(properties: Map<Seq<char>, Value>) -> Seq<Option<PropertyErrorView>> {
        seq![
            failure(bool::extracted(properties, PropertyKind::Powered.wire_name())),
            failure(bool::extracted(properties, PropertyKind::Connected.wire_name())),
            failure(String::extracted(properties, PropertyKind::Name.wire_name())),
            failure(Type::extracted(properties, PropertyKind::Type.wire_name())),
            failure(Option::<bool>::extracted(properties, PropertyKind::Tethering.wire_name())),
            failure(
                Option::<String>::extracted(
                    properties,
                    PropertyKind::TetheringIdentifier.wire_name(),
                ),
            ),
            failure(
                Option::<String>::extracted(
                    properties,
                    PropertyKind::TetheringPassphrase.wire_name(),
                ),
            ),
        ]
    }

    /// What a snapshot assembles to: the error of the first step that
    /// fails, and the technology where none does. `Powered`, `Connected`,
    /// `Name` and `Type` must be there. `Tethering` may be missing and is
    /// then `false`; the two others may be missing and are then `None`. A
    /// property that is there with a value of the wrong kind is an error,
    /// whether it may be missing or not.
    pub open spec fn assembled(properties: Map<Seq<char>, Value>) -> Result<
        PropertiesView,
        PropertyErrorView,
    > {
        match first_failure(Self::failures(properties)) {
            Some(error) => Err(error),
            None => Ok(
                PropertiesView {
                    powered: bool::extracted(properties, PropertyKind::Powered.wire_name())->Ok_0,
                    connected: bool::extracted(
                        properties,
                        PropertyKind::Connected.wire_name(),
                    )->Ok_0,
                    name: String::extracted(properties, PropertyKind::Name.wire_name())->Ok_0,
                    type_: Type::extracted(properties, PropertyKind::Type.wire_name())->Ok_0,
                    tethering: match Option::<bool>::extracted(
                        properties,
                        PropertyKind::Tethering.wire_name(),
                    )->Ok_0 {
                        Some(tethering) => tethering,
                        None => false,
                    },
                    tethering_identifier: Option::<String>::extracted(
                        properties,
                        PropertyKind::TetheringIdentifier.wire_name(),
                    )->Ok_0,
                    tethering_passphrase: Option::<String>::extracted(
                        properties,
                        PropertyKind::TetheringPassphrase.wire_name(),
                    )->Ok_0,
                },
            ),
        }
    }

    /// Assembles a technology from a snapshot of its properties, which it
    /// takes over.
    pub fn try_from(props: PropertyMap) -> (result: Result<Properties, PropertyError>)
        ensures
            outcome(result) == Properties::assembled(props.deep_view()),
    {
        Properties::assemble(&props)
    }

    /// Assembles a technology from a snapshot of its properties.
    pub fn assemble(props: &PropertyMap) -> (result: Result<Properties, PropertyError>)
        ensures
            outcome(result) == Properties::assembled(props.deep_view()),
    {
        let ghost failures = Properties::failures(props.deep_view());
        let powered = bool::from_properties(props, PropertyKind::Powered.name());
        proof {
            if powered is Err {
                lemma_first_failure_at(failures, 0);
            }
        }
        let powered = powered?;
        let connected = bool::from_properties(props, PropertyKind::Connected.name());
        proof {
            if connected is Err {
                lemma_first_failure_at(failures, 1);
            }
        }
        let connected = connected?;
        let name = String::from_properties(props, PropertyKind::Name.name());
        proof {
            if name is Err {
                lemma_first_failure_at(failures, 2);
            }
        }
        let name = name?;
        let type_ = Type::from_properties(props, PropertyKind::Type.name());
        proof {
            if type_ is Err {
                lemma_first_failure_at(failures, 3);
            }
        }
        let type_ = type_?;
        let tethering = Option::<bool>::from_properties(props, PropertyKind::Tethering.name());
        proof {
            if tethering is Err {
                lemma_first_failure_at(failures, 4);
            }
        }
        let tethering = match tethering? {
            Some(tethering) => tethering,
            None => false,
        };
        let tethering_identifier = Option::<String>::from_properties(
            props,
            PropertyKind::TetheringIdentifier.name(),
        );
        proof {
            if tethering_identifier is Err {
                lemma_first_failure_at(failures, 5);
            }
        }
        let tethering_identifier = tethering_identifier?;
        let tethering_passphrase = Option::<String>::from_properties(
            props,
            PropertyKind::TetheringPassphrase.name(),
        );
        proof {
            if tethering_passphrase is Err {
                lemma_first_failure_at(failures, 6);
            }
        }
        let tethering_passphrase = tethering_passphrase?;
        proof {
            lemma_first_failure_none(failures);
        }
        Ok(
            Properties {
                powered,
                connected,
                name,
                type_,
                tethering,
                tethering_identifier,
                tethering_passphrase,
            },
        )
    }
}

impl Properties {
    /// The step that reads a property which must be there, counted from
    /// zero; `None` for a property that may be missing.
    pub open spec fn required_step(kind: PropertyKind) -> Option<int> {
        match kind {
            PropertyKind::Powered => Some(0int),
            PropertyKind::Connected => Some(1int),
            PropertyKind::Name => Some(2int),
            PropertyKind::Type => Some(3int),
            _ => None,
        }
    }

    /// A snapshot that lacks a property which must be there assembles to
    /// no technology at all. Where the steps before that property's own leave
    /// no error, the error says that this property is not present.
    pub proof fn lemma_missing_required(properties: Map<Seq<char>, Value>, kind: PropertyKind)
        requires
            Properties::required_step(kind) is Some,
            !properties.contains_key(kind.wire_name()),
        ensures
            Properties::assembled(properties) is Err,
            (forall|i: int|
                0 <= i < Properties::required_step(kind)->0 ==> (#[trigger] Properties::failures(
                    properties,
                )[i]) is None) ==> Properties::assembled(properties) == Err::<
                PropertiesView,
                PropertyErrorView,
            >(PropertyErrorView::NotPresent(kind.wire_name())),
    {
        let failures = Properties::failures(properties);
        let step = Properties::required_step(kind)->0;
        assert(failures[step] == Some(PropertyErrorView::NotPresent(kind.wire_name())));
        lemma_first_failure_none(failures);
        if forall|i: int| 0 <= i < step ==> (#[trigger] failures[i]) is None {
            lemma_first_failure_at(failures, step);
        }
    }
}

/// The snapshot that says of a technology exactly what `technology` holds:
/// each property under its name, and no property for a field that is
/// `None`.
pub open spec fn snapshot_of(technology: PropertiesView) -> Map<Seq<char>, Value> {
    let required = Map::<Seq<char>, Value>::empty().insert(
        PropertyKind::Powered.wire_name(),
        Value::Bool(technology.powered),
    ).insert(PropertyKind::Connected.wire_name(), Value::Bool(technology.connected)).insert(
        PropertyKind::Name.wire_name(),
        Value::Str(technology.name),
    ).insert(PropertyKind::Type.wire_name(), Value::Str(technology.type_.wire_name())).insert(
        PropertyKind::Tethering.wire_name(),
        Value::Bool(technology.tethering),
    );
    let named = match technology.tethering_identifier {
        Some(identifier) => required.insert(
            PropertyKind::TetheringIdentifier.wire_name(),
            Value::Str(identifier),
        ),
        None => required,
    };
    match technology.tethering_passphrase {
        Some(passphrase) => named.insert(
            PropertyKind::TetheringPassphrase.wire_name(),
            Value::Str(passphrase),
        ),
        None => named,
    }
}

/// Assembling the snapshot of a technology gives the technology back. This
/// holds of every technology whose kind reads back from its spelling,
/// which leaves out an unknown kind that is spelled like a known one.
pub proof fn lemma_round_trip(technology: PropertiesView)
    requires
        Type::parsed(technology.type_.wire_name()) == Some(technology.type_),
    ensures
        Properties::assembled(snapshot_of(technology)) == Ok::<PropertiesView, PropertyErrorView>(
            technology,
        ),
{
    PropertyKind::lemma_names_differ();
    let snapshot = snapshot_of(technology);
    let failures = Properties::failures(snapshot);
    assert(bool::extracted(snapshot, PropertyKind::Powered.wire_name()) == Ok::<
        bool,
        PropertyErrorView,
    >(technology.powered));
    assert(bool::extracted(snapshot, PropertyKind::Connected.wire_name()) == Ok::<
        bool,
        PropertyErrorView,
    >(technology.connected));
    assert(String::extracted(snapshot, PropertyKind::Name.wire_name()) == Ok::<
        Seq<char>,
        PropertyErrorView,
    >(technology.name));
    assert(Type::extracted(snapshot, PropertyKind::Type.wire_name()) == Ok::<
        TypeView,
        PropertyErrorView,
    >(technology.type_));
    assert(Option::<bool>::extracted(snapshot, PropertyKind::Tethering.wire_name()) == Ok::<
        Option<bool>,
        PropertyErrorView,
    >(Some(technology.tethering)));
    assert(Option::<String>::extracted(snapshot, PropertyKind::TetheringIdentifier.wire_name())
        == Ok::<Option<Seq<char>>, PropertyErrorView>(technology.tethering_identifier));
    assert(Option::<String>::extracted(snapshot, PropertyKind::TetheringPassphrase.wire_name())
        == Ok::<Option<Seq<char>>, PropertyErrorView>(technology.tethering_passphrase));
    lemma_first_failure_none(failures);
}

/// The mathematical content of a [`Property`].
pub ghost enum PropertyView {
    Powered(bool),
    Connected(bool),
    Name(Seq<char>),
    Type(TypeView),
    Tethering(bool),
    TetheringIdentifier(Seq<char>),
    TetheringPassphrase(Seq<char>),
}

/// One property of a technology with its value.
#[derive(Clone, Debug)]
pub enum Property {
    Powered(bool),
    Connected(bool),
    Name(String),
    Type(Type),
    Tethering(bool),
    TetheringIdentifier(String),
    TetheringPassphrase(String),
}

impl DeepView for Property {
    type V = PropertyView;

    open spec fn deep_view(&self) -> PropertyView {
        match self {
            Property::Powered(value) => PropertyView::Powered(value.deep_view()),
            Property::Connected(value) => PropertyView::Connected(value.deep_view()),
            Property::Name(value) => PropertyView::Name(value.deep_view()),
            Property::Type(value) => PropertyView::Type(value.deep_view()),
            Property::Tethering(value) => PropertyView::Tethering(value.deep_view()),
            Property::TetheringIdentifier(value) => PropertyView::TetheringIdentifier(
                value.deep_view(),
            ),
            Property::TetheringPassphrase(value) => PropertyView::TetheringPassphrase(
                value.deep_view(),
            ),
        }
    }
}

impl Property {
    /// The property of this name with this value. The name selects the
    /// kind of value that is expected; a name that is not known, or a
    /// value of another kind, is an error.
    pub open spec fn decoded(name: Seq<char>, value: Value) -> Result<
        PropertyView,
        SignalErrorView,
    > {
        match PropertyKind::parsed(name) {
            None => Err(SignalErrorView::UnknownProperty(name)),
            Some(PropertyKind::Powered) => match typed_value::<bool>(name, value) {
                Ok(typed) => Ok(PropertyView::Powered(typed)),
                Err(error) => Err(error),
            },
            Some(PropertyKind::Connected) => match typed_value::<bool>(name, value) {
                Ok(typed) => Ok(PropertyView::Connected(typed)),
                Err(error) => Err(error),
            },
            Some(PropertyKind::Name) => match typed_value::<String>(name, value) {
                Ok(typed) => Ok(PropertyView::Name(typed)),
                Err(error) => Err(error),
            },
            Some(PropertyKind::Type) => match typed_value::<Type>(name, value) {
                Ok(typed) => Ok(PropertyView::Type(typed)),
                Err(error) => Err(error),
            },
            Some(PropertyKind::Tethering) => match typed_value::<bool>(name, value) {
                Ok(typed) => Ok(PropertyView::Tethering(typed)),
                Err(error) => Err(error),
            },
            Some(PropertyKind::TetheringIdentifier) => match typed_value::<String>(name, value) {
                Ok(typed) => Ok(PropertyView::TetheringIdentifier(typed)),
                Err(error) => Err(error),
            },
            Some(PropertyKind::TetheringPassphrase) => match typed_value::<String>(name, value) {
                Ok(typed) => Ok(PropertyView::TetheringPassphrase(typed)),
                Err(error) => Err(error),
            },
        }
    }

    /// Decodes the property of this name with this value.
    pub fn decode(name: &str, value: &DynamicValue) -> (result: Result<Property, SignalError>)
        ensures
            signal_outcome(result) == Property::decoded(name@, value.deep_view()),
    {
        match PropertyKind::from_str(name) {
            None => Err(SignalError::UnknownProperty(name.to_owned())),
            Some(PropertyKind::Powered) => match get_typed_value::<bool>(name, value) {
                Ok(typed) => Ok(Property::Powered(typed)),
                Err(error) => Err(error),
            },
            Some(PropertyKind::Connected) => match get_typed_value::<bool>(name, value) {
                Ok(typed) => Ok(Property::Connected(typed)),
                Err(error) => Err(error),
            },
            Some(PropertyKind::Name) => match get_typed_value::<String>(name, value) {
                Ok(typed) => Ok(Property::Name(typed)),
                Err(error) => Err(error),
            },
            Some(PropertyKind::Type) => match get_typed_value::<Type>(name, value) {
                Ok(typed) => Ok(Property::Type(typed)),
                Err(error) => Err(error),
            },
            Some(PropertyKind::Tethering) => match get_typed_value::<bool>(name, value) {
                Ok(typed) => Ok(Property::Tethering(typed)),
                Err(error) => Err(error),
            },
            Some(PropertyKind::TetheringIdentifier) => match get_typed_value::<String>(
                name,
                value,
            ) {
                Ok(typed) => Ok(Property::TetheringIdentifier(typed)),
                Err(error) => Err(error),
            },
            Some(PropertyKind::TetheringPassphrase) => match get_typed_value::<String>(
                name,
                value,
            ) {
                Ok(typed) => Ok(Property::TetheringPassphrase(typed)),
                Err(error) => Err(error),
            },
        }
    }
}

/// The mathematical content of a [`Signal`].
pub ghost enum SignalView {
    PropertyChanged(PropertyView),
}

/// A signal of a technology.
#[derive(Clone, Debug)]
pub enum Signal {
    /// A property has a new value.
    PropertyChanged(Property),
}

impl DeepView for Signal {
    type V = SignalView;

    open spec fn deep_view(&self) -> SignalView {
        match self {
            Signal::PropertyChanged(property) => SignalView::PropertyChanged(property.deep_view()),
        }
    }
}

impl Signal {
    /// What a message of a technology with this member and these arguments is.
    /// The one signal is `PropertyChanged`, with the property's name and
    /// its new value.
    pub open spec fn classified(member: Seq<char>, args: Seq<Value>) -> ClassifiedView<SignalView> {
        if member != "PropertyChanged"@ {
            ClassifiedView::NotApplicable(NoMatch::Signal)
        } else {
            match changed_property(args) {
                None => ClassifiedView::Malformed(SignalErrorView::Arguments),
                Some((name, value)) => match Property::decoded(name, value) {
                    Ok(property) => ClassifiedView::Decoded(SignalView::PropertyChanged(property)),
                    Err(error) => ClassifiedView::Malformed(error),
                },
            }
        }
    }

    /// Classifies a message of a technology.
    pub fn decode(member: &str, args: &Vec<DynamicValue>) -> (result: Classified<Signal>)
        ensures
            result.deep_view() == Signal::classified(member@, args.deep_view()),
    {
        if !text_eq(member, "PropertyChanged") {
            return Classified::NotApplicable(NoMatch::Signal);
        }
        match get_changed_property(args) {
            None => Classified::Malformed(SignalError::Arguments),
            Some((name, value)) => match Property::decode(name, value) {
                Ok(property) => Classified::Decoded(Signal::PropertyChanged(property)),
                Err(error) => Classified::Malformed(error),
            },
        }
    }
}

} // verus!
