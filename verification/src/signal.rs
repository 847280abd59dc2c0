//! Signals: what the daemon announces without being asked.
//!
//! A signal arrives as a message with the name of an interface, the name
//! of a member and a list of arguments. Classifying it has three
//! outcomes, which are kept apart: the signal decoded; a message that is
//! none of this scope's signals; and a message that names a signal and
//! carries arguments that do not fit it.

use crate::api::manager::{Signal as ManagerSignal, SignalKind, SignalView as ManagerSignalView};
use crate::api::service::{Signal as ServiceSignal, SignalView as ServiceSignalView};
use crate::api::technology::{Signal as TechnologySignal, SignalView as TechnologySignalView};
use crate::api::{FromProperties, Parse, PropertyError, PropertyErrorView};
use crate::text::text_eq;
use crate::value::{DynamicValue, PropertyMap, Value};
use vstd::prelude::*;

verus! {

/// The mathematical content of a [`Message`].
pub ghost struct MessageView {
    pub interface: Seq<char>,
    pub member: Seq<char>,
    pub args: Seq<Value>,
}

/// A message as the transport hands it over.
#[derive(Debug)]
pub struct Message {
    /// The interface that the message belongs to.
    pub interface: String,
    /// The name of the signal within the interface.
    pub member: String,
    /// The arguments, in order.
    pub args: Vec<DynamicValue>,
}

impl DeepView for Message {
    type V = MessageView;

    open spec fn deep_view(&self) -> MessageView {
        MessageView {
            interface: self.interface@,
            member: self.member@,
            args: self.args.deep_view(),
        }
    }
}

/// The kind of object that an interface belongs to.
#[derive(Clone, Copy, Debug, PartialEq, Eq)]
pub enum Scope {
    Manager,
    Technology,
    Service,
}

impl DeepView for Scope {
    type V = Scope;

    open spec fn deep_view(&self) -> Scope {
        *self
    }
}

impl Parse for Scope {
    open spec fn parsed(text: Seq<char>) -> Option<Scope> {
        if text == "net.connman.Manager"@ {
            Some(Scope::Manager)
        } else if text == "net.connman.Technology"@ {
            Some(Scope::Technology)
        } else if text == "net.connman.Service"@ {
            Some(Scope::Service)
        } else {
            None
        }
    }

    fn from_str(s: &str) -> (value: Option<Scope>)
        ensures
            value.deep_view() == Self::parsed(s@),
    {
        if text_eq(s, "net.connman.Manager") {
            Some(Scope::Manager)
        } else if text_eq(s, "net.connman.Technology") {
            Some(Scope::Technology)
        } else if text_eq(s, "net.connman.Service") {
            Some(Scope::Service)
        } else {
            None
        }
    }
}

impl Scope {
    /// The name of the interface of this scope.
    pub open spec fn wire_name(self) -> Seq<char> {
        match self {
            Scope::Manager => "net.connman.Manager"@,
            Scope::Technology => "net.connman.Technology"@,
            Scope::Service => "net.connman.Service"@,
        }
    }

    /// The name of the interface of this scope.
    pub fn name(self) -> (name: &'static str)
        ensures
            name@ == self.wire_name(),
    {
        match self {
            Scope::Manager => "net.connman.Manager",
            Scope::Technology => "net.connman.Technology",
            Scope::Service => "net.connman.Service",
        }
    }
}

/// The mathematical content of a [`SignalError`].
pub ghost enum SignalErrorView {
    Arguments,
    UnknownProperty(Seq<char>),
    Property(PropertyErrorView),
}

/// Why the arguments of a message do not fit the signal that it names.
#[derive(Clone, Debug, PartialEq, Eq)]
pub enum SignalError {
    /// There are too few or too many arguments, or one is of the wrong kind.
    Arguments,
    /// A change is announced of a property that the object does not have.
    UnknownProperty(String),
    /// A change is announced with a value that is not of the property's kind.
    Property(PropertyError),
}

impl DeepView for SignalError {
    type V = SignalErrorView;

    open spec fn deep_view(&self) -> SignalErrorView {
        match self {
            SignalError::Arguments => SignalErrorView::Arguments,
            SignalError::UnknownProperty(name) => SignalErrorView::UnknownProperty(name@),
            SignalError::Property(error) => SignalErrorView::Property(error.deep_view()),
        }
    }
}

/// What it was that a message did not match.
#[derive(Clone, Copy, Debug, PartialEq, Eq)]
pub enum NoMatch {
    /// The interface belongs to no scope that is known.
    Scope,
    /// The member names no signal of the scope.
    Signal,
}

/// The mathematical content of a [`Classified`].
pub ghost enum ClassifiedView<V> {
    Decoded(V),
    NotApplicable(NoMatch),
    Malformed(SignalErrorView),
}

/// What classifying a message leaves.
#[derive(Debug)]
pub enum Classified<S> {
    /// The message is this signal.
    Decoded(S),
    /// The message is none of the signals that were looked for. This is no
    /// error: another scope may know the message.
    NotApplicable(NoMatch),
    /// The message names a signal, and its arguments do not fit. Such a
    /// message is dropped; the messages after it are not touched by it.
    Malformed(SignalError),
}

impl<S: DeepView> DeepView for Classified<S> {
    type V = ClassifiedView<S::V>;

    open spec fn deep_view(&self) -> ClassifiedView<S::V> {
        match self {
            Classified::Decoded(signal) => ClassifiedView::Decoded(signal.deep_view()),
            Classified::NotApplicable(miss) => ClassifiedView::NotApplicable(*miss),
            Classified::Malformed(error) => ClassifiedView::Malformed(error.deep_view()),
        }
    }
}

/// The name and the value that the arguments of a `PropertyChanged` signal
/// give: there are exactly two arguments, and the first is a string.
pub open spec fn changed_property(args: Seq<Value>) -> Option<(Seq<char>, Value)> {
    if args.len() == 2 && args[0] is Str {
        Some((args[0]->Str_0, args[1]))
    } else {
        None
    }
}

/// Takes the arguments of a `PropertyChanged` signal apart.
pub fn get_changed_property(args: &Vec<DynamicValue>) -> (change: Option<(&str, &DynamicValue)>)
    ensures
        change is Some <==> changed_property(args.deep_view()) is Some,
        change matches Some((name, value)) ==> changed_property(args.deep_view()) == Some(
            (name@, value.deep_view()),
        ),
{
    if args.len() != 2 {
        return None;
    }
    assert(args.deep_view()[0] == args@[0].deep_view());
    assert(args.deep_view()[1] == args@[1].deep_view());
    match args[0].as_str() {
        Some(name) => Some((name, &args[1])),
        None => None,
    }
}

/// The mathematical content of a decoder's result.
pub open spec fn signal_outcome<T: DeepView>(result: Result<T, SignalError>) -> Result<
    T::V,
    SignalErrorView,
> {
    match result {
        Ok(value) => Ok(value.deep_view()),
        Err(error) => Err(error.deep_view()),
    }
}

/// What the new value of the property `name` is as a `T`: what reading
/// `name` yields from the snapshot that holds this one property.
pub open spec fn typed_value<T: FromProperties>(name: Seq<char>, value: Value) -> Result<
    T::V,
    SignalErrorView,
> {
    match T::extracted(Map::<Seq<char>, Value>::empty().insert(name, value), name) {
        Ok(typed) => Ok(typed),
        Err(error) => Err(SignalErrorView::Property(error)),
    }
}

/// Reads the new value of the property `name` as a `T`.
pub fn get_typed_value<T: FromProperties>(name: &str, value: &DynamicValue) -> (result: Result<
    T,
    SignalError,
>)
    ensures
        signal_outcome(result) == typed_value::<T>(name@, value.deep_view()),
{
    let mut single = PropertyMap::new();
    single.insert(name.to_owned(), value.duplicate());
    match T::from_properties(&single, name) {
        Ok(typed) => Ok(typed),
        Err(error) => Err(SignalError::Property(error)),
    }
}

/// The mathematical content of a [`Signal`].
pub ghost enum SignalView {
    Manager(ManagerSignalView),
    Technology(TechnologySignalView),
    Service(ServiceSignalView),
}

/// A signal of any scope.
pub enum Signal {
    Manager(ManagerSignal),
    Technology(TechnologySignal),
    Service(ServiceSignal),
}

impl DeepView for Signal {
    type V = SignalView;

    open spec fn deep_view(&self) -> SignalView {
        match self {
            Signal::Manager(signal) => SignalView::Manager(signal.deep_view()),
            Signal::Technology(signal) => SignalView::Technology(signal.deep_view()),
            Signal::Service(signal) => SignalView::Service(signal.deep_view()),
        }
    }
}

impl Signal {
    /// The scope that this signal belongs to.
    pub fn scope(&self) -> (scope: Scope)
        ensures
            scope == signal_scope(self.deep_view()),
    {
        match self {
            Signal::Manager(_) => Scope::Manager,
            Signal::Technology(_) => Scope::Technology,
            Signal::Service(_) => Scope::Service,
        }
    }
}

/// The scope that a signal belongs to.
pub open spec fn signal_scope(signal: SignalView) -> Scope {
    match signal {
        SignalView::Manager(_) => Scope::Manager,
        SignalView::Technology(_) => Scope::Technology,
        SignalView::Service(_) => Scope::Service,
    }
}

/// A scope's outcome as an outcome over all scopes.
pub open spec fn widened<V>(
    outcome: ClassifiedView<V>,
    wrap: spec_fn(V) -> SignalView,
) -> ClassifiedView<SignalView> {
    match outcome {
        ClassifiedView::Decoded(signal) => ClassifiedView::Decoded(wrap(signal)),
        ClassifiedView::NotApplicable(miss) => ClassifiedView::NotApplicable(miss),
        ClassifiedView::Malformed(error) => ClassifiedView::Malformed(error),
    }
}

/// What a message is: first its interface selects the scope, then the
/// scope's own signals are tried by the member's name. A message of an
/// interface that is not known is not applicable.
pub open spec fn classified(message: MessageView) -> ClassifiedView<SignalView> {
    match Scope::parsed(message.interface) {
        None => ClassifiedView::NotApplicable(NoMatch::Scope),
        Some(Scope::Manager) => widened(
            ManagerSignal::classified(message.member, message.args),
            |signal: ManagerSignalView| SignalView::Manager(signal),
        ),
        Some(Scope::Technology) => widened(
            TechnologySignal::classified(message.member, message.args),
            |signal: TechnologySignalView| SignalView::Technology(signal),
        ),
        Some(Scope::Service) => widened(
            ServiceSignal::classified(message.member, message.args),
            |signal: ServiceSignalView| SignalView::Service(signal),
        ),
    }
}

/// Classifies a message.
pub fn classify(message: &Message) -> (result: Classified<Signal>)
    ensures
        result.deep_view() == classified(message.deep_view()),
{
    match Scope::from_str(message.interface.as_str()) {
        None => Classified::NotApplicable(NoMatch::Scope),
        Some(Scope::Manager) => match ManagerSignal::decode(
            message.member.as_str(),
            &message.args,
        ) {
            Classified::Decoded(signal) => Classified::Decoded(Signal::Manager(signal)),
            Classified::NotApplicable(miss) => Classified::NotApplicable(miss),
            Classified::Malformed(error) => Classified::Malformed(error),
        },
        Some(Scope::Technology) => match TechnologySignal::decode(
            message.member.as_str(),
            &message.args,
        ) {
            Classified::Decoded(signal) => Classified::Decoded(Signal::Technology(signal)),
            Classified::NotApplicable(miss) => Classified::NotApplicable(miss),
            Classified::Malformed(error) => Classified::Malformed(error),
        },
        Some(Scope::Service) => match ServiceSignal::decode(
            message.member.as_str(),
            &message.args,
        ) {
            Classified::Decoded(signal) => Classified::Decoded(Signal::Service(signal)),
            Classified::NotApplicable(miss) => Classified::NotApplicable(miss),
            Classified::Malformed(error) => Classified::Malformed(error),
        },
    }
}

/// Whether `member` names a signal of `scope`.
pub open spec fn names_signal(scope: Scope, member: Seq<char>) -> bool {
    match scope {
        Scope::Manager => SignalKind::parsed(member) is Some,
        Scope::Technology => member == "PropertyChanged"@,
        Scope::Service => member == "PropertyChanged"@,
    }
}

/// The name of the member that announces a signal.
pub open spec fn signal_member(signal: SignalView) -> Seq<char> {
    match signal {
        SignalView::Manager(ManagerSignalView::TechnologyAdded(_, _)) => "TechnologyAdded"@,
        SignalView::Manager(ManagerSignalView::TechnologyRemoved(_)) => "TechnologyRemoved"@,
        SignalView::Manager(ManagerSignalView::ServicesChanged(_, _)) => "ServicesChanged"@,
        SignalView::Manager(ManagerSignalView::PropertyChanged(_)) => "PropertyChanged"@,
        SignalView::Manager(ManagerSignalView::PeersChanged(_, _)) => "PeersChanged"@,
        SignalView::Technology(_) => "PropertyChanged"@,
        SignalView::Service(_) => "PropertyChanged"@,
    }
}

/// Every message has exactly one of the three outcomes, and the interface
/// and the member alone decide whether the message is applicable: it is
/// not exactly where the interface is not known or the member names no
/// signal of the interface's scope. What is decoded is a signal of that
/// scope and of that name. So a message that names a signal is decoded or
/// malformed, whatever its arguments, and never passed over.
pub proof fn lemma_classification(message: MessageView)
    ensures
        (if classified(message) is Decoded {
            1int
        } else {
            0int
        }) + (if classified(message) is NotApplicable {
            1int
        } else {
            0int
        }) + (if classified(message) is Malformed {
            1int
        } else {
            0int
        }) == 1,
        classified(message) is NotApplicable <==> !(Scope::parsed(message.interface) matches Some(
            scope,
        ) && names_signal(scope, message.member)),
        classified(message) matches ClassifiedView::NotApplicable(miss) ==> (miss == NoMatch::Scope
            <==> Scope::parsed(message.interface) is None),
        classified(message) matches ClassifiedView::Decoded(signal) ==> Scope::parsed(
            message.interface,
        ) == Some(signal_scope(signal)) && signal_member(signal) == message.member,
{
    SignalKind::lemma_names_differ();
    if let Some(kind) = SignalKind::parsed(message.member) {
        assert(kind.wire_name() == message.member);
    }
}

/// Whether a message is applicable does not depend on its arguments.
pub proof fn lemma_applicable_by_name(message: MessageView, other: Seq<Value>)
    ensures
        classified(message) is NotApplicable <==> classified(
            MessageView { args: other, ..message },
        ) is NotApplicable,
{
    lemma_classification(message);
    lemma_classification(MessageView { args: other, ..message });
}

} // verus!
