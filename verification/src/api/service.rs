//! Services: the networks that the daemon knows and can connect to.

use crate::api::composite::{
    composite_property, composite_value, get_composite, last_parsed, lemma_composite_value,
    lemma_last_parsed_other_name, lemma_last_parsed_push, lemma_last_parsed_single,
    lemma_last_parsed_some, pairs, parsed_rule, sixteen_bit_rule, text_list_rule, text_rule,
    Composite, Form, Pairs,
};
use crate::api::{
    elements_property, failure, first_failure, get_property_argiter, get_property_fromstr,
    lemma_first_failure_at, lemma_first_failure_none, lemma_text_list_cast, outcome,
    parsed_property, text_list, Cast, FromProperties, Parse, PropertyError, PropertyErrorView,
};
use crate::signal::{
    changed_property, get_changed_property, get_typed_value, signal_outcome, typed_value,
    Classified, ClassifiedView, NoMatch, SignalError, SignalErrorView,
};
use crate::text::{decimal_text, lemma_decimal_round_trip, text_eq};
use crate::value::{DynamicValue, PropertyMap, Value};
use vstd::prelude::*;

verus! {

/// The connection state of a service.
#[derive(Clone, Copy, Debug, PartialEq, Eq)]
pub enum State {
    Idle,
    Failure,
    Association,
    Configuration,
    Ready,
    Disconnect,
    Online,
}

impl DeepView for State {
    type V = State;

    open spec fn deep_view(&self) -> State {
        *self
    }
}

impl Parse for State {
    open spec fn parsed(text: Seq<char>) -> Option<State> {
        if text == "idle"@ {
            Some(State::Idle)
        } else if text == "failure"@ {
            Some(State::Failure)
        } else if text == "association"@ {
            Some(State::Association)
        } else if text == "configuration"@ {
            Some(State::Configuration)
        } else if text == "ready"@ {
            Some(State::Ready)
        } else if text == "disconnect"@ {
            Some(State::Disconnect)
        } else if text == "online"@ {
            Some(State::Online)
        } else {
            None
        }
    }

    fn from_str(s: &str) -> (value: Option<State>)
        ensures
            value.deep_view() == Self::parsed(s@),
    {
        if text_eq(s, "idle") {
            Some(State::Idle)
        } else if text_eq(s, "failure") {
            Some(State::Failure)
        } else if text_eq(s, "association") {
            Some(State::Association)
        } else if text_eq(s, "configuration") {
            Some(State::Configuration)
        } else if text_eq(s, "ready") {
            Some(State::Ready)
        } else if text_eq(s, "disconnect") {
            Some(State::Disconnect)
        } else if text_eq(s, "online") {
            Some(State::Online)
        } else {
            None
        }
    }
}

impl State {
    /// The spelling of this value on the wire.
    pub open spec fn wire_name(self) -> Seq<char> {
        match self {
            State::Idle => "idle"@,
            State::Failure => "failure"@,
            State::Association => "association"@,
            State::Configuration => "configuration"@,
            State::Ready => "ready"@,
            State::Disconnect => "disconnect"@,
            State::Online => "online"@,
        }
    }

    /// The spelling of this value on the wire.
    pub fn name(self) -> (name: &'static str)
        ensures
            name@ == self.wire_name(),
    {
        match self {
            State::Idle => "idle",
            State::Failure => "failure",
            State::Association => "association",
            State::Configuration => "configuration",
            State::Ready => "ready",
            State::Disconnect => "disconnect",
            State::Online => "online",
        }
    }
}

impl State {
    /// No two values share a spelling, and each spelling reads as its own.
    pub proof fn lemma_names_differ()
        ensures
            forall|a: State, b: State|
                #[trigger] a.wire_name() == #[trigger] b.wire_name() ==> a == b,
            forall|a: State| State::parsed(#[trigger] a.wire_name()) == Some(a),
    {
        reveal_strlit("idle");
        reveal_strlit("failure");
        reveal_strlit("association");
        reveal_strlit("configuration");
        reveal_strlit("ready");
        reveal_strlit("disconnect");
        reveal_strlit("online");
        assert("idle"@.len() == 4);
        assert("failure"@.len() == 7);
        assert("association"@.len() == 11);
        assert("configuration"@.len() == 13);
        assert("ready"@.len() == 5);
        assert("disconnect"@.len() == 10);
        assert("online"@.len() == 6);
    }
}

/// Why a service failed; it means something only in the state `Failure`.
#[derive(Clone, Copy, Debug, PartialEq, Eq)]
pub enum Error {
    OutOfRange,
    PinMissing,
    DhcpFailed,
    ConnectFailed,
    LoginFailed,
    AuthFailed,
    InvalidKey,
}

impl DeepView for Error {
    type V = Error;

    open spec fn deep_view(&self) -> Error {
        *self
    }
}

impl Parse for Error {
    open spec fn parsed(text: Seq<char>) -> Option<Error> {
        if text == "out-of-range"@ {
            Some(Error::OutOfRange)
        } else if text == "pin-missing"@ {
            Some(Error::PinMissing)
        } else if text == "dhcp-failed"@ {
            Some(Error::DhcpFailed)
        } else if text == "connect-failed"@ {
            Some(Error::ConnectFailed)
        } else if text == "login-failed"@ {
            Some(Error::LoginFailed)
        } else if text == "auth-failed"@ {
            Some(Error::AuthFailed)
        } else if text == "invalid-key"@ {
            Some(Error::InvalidKey)
        } else {
            None
        }
    }

    fn from_str(s: &str) -> (value: Option<Error>)
        ensures
            value.deep_view() == Self::parsed(s@),
    {
        if text_eq(s, "out-of-range") {
            Some(Error::OutOfRange)
        } else if text_eq(s, "pin-missing") {
            Some(Error::PinMissing)
        } else if text_eq(s, "dhcp-failed") {
            Some(Error::DhcpFailed)
        } else if text_eq(s, "connect-failed") {
            Some(Error::ConnectFailed)
        } else if text_eq(s, "login-failed") {
            Some(Error::LoginFailed)
        } else if text_eq(s, "auth-failed") {
            Some(Error::AuthFailed)
        } else if text_eq(s, "invalid-key") {
            Some(Error::InvalidKey)
        } else {
            None
        }
    }
}

impl Error {
    /// The spelling of this value on the wire.
    pub open spec fn wire_name(self) -> Seq<char> {
        match self {
            Error::OutOfRange => "out-of-range"@,
            Error::PinMissing => "pin-missing"@,
            Error::DhcpFailed => "dhcp-failed"@,
            Error::ConnectFailed => "connect-failed"@,
            Error::LoginFailed => "login-failed"@,
            Error::AuthFailed => "auth-failed"@,
            Error::InvalidKey => "invalid-key"@,
        }
    }

    /// The spelling of this value on the wire.
    pub fn name(self) -> (name: &'static str)
        ensures
            name@ == self.wire_name(),
    {
        match self {
            Error::OutOfRange => "out-of-range",
            Error::PinMissing => "pin-missing",
            Error::DhcpFailed => "dhcp-failed",
            Error::ConnectFailed => "connect-failed",
            Error::LoginFailed => "login-failed",
            Error::AuthFailed => "auth-failed",
            Error::InvalidKey => "invalid-key",
        }
    }
}

impl Error {
    /// No two values share a spelling, and each spelling reads as its own.
    pub proof fn lemma_names_differ()
        ensures
            forall|a: Error, b: Error|
                #[trigger] a.wire_name() == #[trigger] b.wire_name() ==> a == b,
            forall|a: Error| Error::parsed(#[trigger] a.wire_name()) == Some(a),
    {
        reveal_strlit("out-of-range");
        reveal_strlit("pin-missing");
        reveal_strlit("dhcp-failed");
        reveal_strlit("connect-failed");
        reveal_strlit("login-failed");
        reveal_strlit("auth-failed");
        reveal_strlit("invalid-key");
        assert("out-of-range"@.len() == 12);
        assert("pin-missing"@.len() == 11);
        assert("dhcp-failed"@.len() == 11);
        assert("connect-failed"@.len() == 14);
        assert("login-failed"@.len() == 12);
        assert("auth-failed"@.len() == 11);
        assert("invalid-key"@.len() == 11);
        assert("out-of-range"@[0] == 'o');
        assert("login-failed"@[0] == 'l');
        assert("pin-missing"@[0] == 'p');
        assert("dhcp-failed"@[0] == 'd');
        assert("auth-failed"@[0] == 'a');
        assert("invalid-key"@[0] == 'i');
    }
}
/// The mathematical content of a [`Type`].
pub ghost enum TypeView {
    Wifi,
    Ethernet,
    Unknown(Seq<char>),
}

impl TypeView {
    /// The spelling of this kind on the wire.
    pub open spec fn wire_name(self) -> Seq<char> {
        match self {
            TypeView::Wifi => "wifi"@,
            TypeView::Ethernet => "ethernet"@,
            TypeView::Unknown(name) => name,
        }
    }
}

/// The kind of a service. A kind that this library does not know is kept
/// as the daemon spelled it.
#[derive(Clone, Debug, PartialEq, Eq)]
pub enum Type {
    Wifi,
    Ethernet,
    Unknown(String),
}

impl DeepView for Type {
    type V = TypeView;

    open spec fn deep_view(&self) -> TypeView {
        match self {
            Type::Wifi => TypeView::Wifi,
            Type::Ethernet => TypeView::Ethernet,
            Type::Unknown(name) => TypeView::Unknown(name@),
        }
    }
}

impl Parse for Type {
    open spec fn parsed(text: Seq<char>) -> Option<TypeView> {
        if text == "wifi"@ {
            Some(TypeView::Wifi)
        } else if text == "ethernet"@ {
            Some(TypeView::Ethernet)
        } else {
            Some(TypeView::Unknown(text))
        }
    }

    fn from_str(s: &str) -> (value: Option<Type>)
        ensures
            value.deep_view() == Self::parsed(s@),
    {
        if text_eq(s, "wifi") {
            Some(Type::Wifi)
        } else if text_eq(s, "ethernet") {
            Some(Type::Ethernet)
        } else {
            Some(Type::Unknown(s.to_owned()))
        }
    }
}

/// The fields of an IPv4 configuration.
#[derive(Clone, Copy, Debug, PartialEq, Eq)]
pub enum Ipv4Kind {
    Method,
    Address,
    Netmask,
    Gateway,
}

impl DeepView for Ipv4Kind {
    type V = Ipv4Kind;

    open spec fn deep_view(&self) -> Ipv4Kind {
        *self
    }
}

impl Parse for Ipv4Kind {
    open spec fn parsed(text: Seq<char>) -> Option<Ipv4Kind> {
        if text == "Method"@ {
            Some(Ipv4Kind::Method)
        } else if text == "Address"@ {
            Some(Ipv4Kind::Address)
        } else if text == "Netmask"@ {
            Some(Ipv4Kind::Netmask)
        } else if text == "Gateway"@ {
            Some(Ipv4Kind::Gateway)
        } else {
            None
        }
    }

    fn from_str(s: &str) -> (value: Option<Ipv4Kind>)
        ensures
            value.deep_view() == Self::parsed(s@),
    {
        if text_eq(s, "Method") {
            Some(Ipv4Kind::Method)
        } else if text_eq(s, "Address") {
            Some(Ipv4Kind::Address)
        } else if text_eq(s, "Netmask") {
            Some(Ipv4Kind::Netmask)
        } else if text_eq(s, "Gateway") {
            Some(Ipv4Kind::Gateway)
        } else {
            None
        }
    }
}

impl Ipv4Kind {
    /// The spelling of this value on the wire.
    pub open spec fn wire_name(self) -> Seq<char> {
        match self {
            Ipv4Kind::Method => "Method"@,
            Ipv4Kind::Address => "Address"@,
            Ipv4Kind::Netmask => "Netmask"@,
            Ipv4Kind::Gateway => "Gateway"@,
        }
    }

    /// The spelling of this value on the wire.
    pub fn name(self) -> (name: &'static str)
        ensures
            name@ == self.wire_name(),
    {
        match self {
            Ipv4Kind::Method => "Method",
            Ipv4Kind::Address => "Address",
            Ipv4Kind::Netmask => "Netmask",
            Ipv4Kind::Gateway => "Gateway",
        }
    }
}

/// How an IPv4 address is obtained.
#[derive(Clone, Copy, Debug, PartialEq, Eq)]
pub enum Ipv4Method {
    Dhcp,
    Manual,
    Auto,
    Off,
    Fixed,
}

impl DeepView for Ipv4Method {
    type V = Ipv4Method;

    open spec fn deep_view(&self) -> Ipv4Method {
        *self
    }
}

impl Parse for Ipv4Method {
    open spec fn parsed(text: Seq<char>) -> Option<Ipv4Method> {
        if text == "dhcp"@ {
            Some(Ipv4Method::Dhcp)
        } else if text == "manual"@ {
            Some(Ipv4Method::Manual)
        } else if text == "auto"@ {
            Some(Ipv4Method::Auto)
        } else if text == "off"@ {
            Some(Ipv4Method::Off)
        } else if text == "fixed"@ {
            Some(Ipv4Method::Fixed)
        } else {
            None
        }
    }

    fn from_str(s: &str) -> (value: Option<Ipv4Method>)
        ensures
            value.deep_view() == Self::parsed(s@),
    {
        if text_eq(s, "dhcp") {
            Some(Ipv4Method::Dhcp)
        } else if text_eq(s, "manual") {
            Some(Ipv4Method::Manual)
        } else if text_eq(s, "auto") {
            Some(Ipv4Method::Auto)
        } else if text_eq(s, "off") {
            Some(Ipv4Method::Off)
        } else if text_eq(s, "fixed") {
            Some(Ipv4Method::Fixed)
        } else {
            None
        }
    }
}

impl Ipv4Method {
    /// The spelling of this value on the wire.
    pub open spec fn wire_name(self) -> Seq<char> {
        match self {
            Ipv4Method::Dhcp => "dhcp"@,
            Ipv4Method::Manual => "manual"@,
            Ipv4Method::Auto => "auto"@,
            Ipv4Method::Off => "off"@,
            Ipv4Method::Fixed => "fixed"@,
        }
    }

    /// The spelling of this value on the wire.
    pub fn name(self) -> (name: &'static str)
        ensures
            name@ == self.wire_name(),
    {
        match self {
            Ipv4Method::Dhcp => "dhcp",
            Ipv4Method::Manual => "manual",
            Ipv4Method::Auto => "auto",
            Ipv4Method::Off => "off",
            Ipv4Method::Fixed => "fixed",
        }
    }
}

impl Ipv4Method {
    /// No two values share a spelling, and each spelling reads as its own.
    pub proof fn lemma_names_differ()
        ensures
            forall|a: Ipv4Method, b: Ipv4Method|
                #[trigger] a.wire_name() == #[trigger] b.wire_name() ==> a == b,
            forall|a: Ipv4Method| Ipv4Method::parsed(#[trigger] a.wire_name()) == Some(a),
    {
        reveal_strlit("dhcp");
        reveal_strlit("manual");
        reveal_strlit("auto");
        reveal_strlit("off");
        reveal_strlit("fixed");
        assert("dhcp"@.len() == 4);
        assert("manual"@.len() == 6);
        assert("auto"@.len() == 4);
        assert("off"@.len() == 3);
        assert("fixed"@.len() == 5);
        assert("dhcp"@[0] == 'd');
        assert("auto"@[0] == 'a');
    }
}

/// The fields of an IPv6 configuration.
#[derive(Clone, Copy, Debug, PartialEq, Eq)]
pub enum Ipv6Kind {
    Method,
    Address,
    PrefixLength,
    Gateway,
    Privacy,
}

impl DeepView for Ipv6Kind {
    type V = Ipv6Kind;

    open spec fn deep_view(&self) -> Ipv6Kind {
        *self
    }
}

impl Parse for Ipv6Kind {
    open spec fn parsed(text: Seq<char>) -> Option<Ipv6Kind> {
        if text == "Method"@ {
            Some(Ipv6Kind::Method)
        } else if text == "Address"@ {
            Some(Ipv6Kind::Address)
        } else if text == "PrefixLength"@ {
            Some(Ipv6Kind::PrefixLength)
        } else if text == "Gateway"@ {
            Some(Ipv6Kind::Gateway)
        } else if text == "Privacy"@ {
            Some(Ipv6Kind::Privacy)
        } else {
            None
        }
    }

    fn from_str(s: &str) -> (value: Option<Ipv6Kind>)
        ensures
            value.deep_view() == Self::parsed(s@),
    {
        if text_eq(s, "Method") {
            Some(Ipv6Kind::Method)
        } else if text_eq(s, "Address") {
            Some(Ipv6Kind::Address)
        } else if text_eq(s, "PrefixLength") {
            Some(Ipv6Kind::PrefixLength)
        } else if text_eq(s, "Gateway") {
            Some(Ipv6Kind::Gateway)
        } else if text_eq(s, "Privacy") {
            Some(Ipv6Kind::Privacy)
        } else {
            None
        }
    }
}

impl Ipv6Kind {
    /// The spelling of this value on the wire.
    pub open spec fn wire_name(self) -> Seq<char> {
        match self {
            Ipv6Kind::Method => "Method"@,
            Ipv6Kind::Address => "Address"@,
            Ipv6Kind::PrefixLength => "PrefixLength"@,
            Ipv6Kind::Gateway => "Gateway"@,
            Ipv6Kind::Privacy => "Privacy"@,
        }
    }

    /// The spelling of this value on the wire.
    pub fn name(self) -> (name: &'static str)
        ensures
            name@ == self.wire_name(),
    {
        match self {
            Ipv6Kind::Method => "Method",
            Ipv6Kind::Address => "Address",
            Ipv6Kind::PrefixLength => "PrefixLength",
            Ipv6Kind::Gateway => "Gateway",
            Ipv6Kind::Privacy => "Privacy",
        }
    }
}

/// How an IPv6 address is obtained.
#[derive(Clone, Copy, Debug, PartialEq, Eq)]
pub enum Ipv6Method {
    Auto,
    Manual,
    SixToFour,
    Off,
}

impl DeepView for Ipv6Method {
    type V = Ipv6Method;

    open spec fn deep_view(&self) -> Ipv6Method {
        *self
    }
}

impl Parse for Ipv6Method {
    open spec fn parsed(text: Seq<char>) -> Option<Ipv6Method> {
        if text == "auto"@ {
            Some(Ipv6Method::Auto)
        } else if text == "manual"@ {
            Some(Ipv6Method::Manual)
        } else if text == "6to4"@ {
            Some(Ipv6Method::SixToFour)
        } else if text == "off"@ {
            Some(Ipv6Method::Off)
        } else {
            None
        }
    }

    fn from_str(s: &str) -> (value: Option<Ipv6Method>)
        ensures
            value.deep_view() == Self::parsed(s@),
    {
        if text_eq(s, "auto") {
            Some(Ipv6Method::Auto)
        } else if text_eq(s, "manual") {
            Some(Ipv6Method::Manual)
        } else if text_eq(s, "6to4") {
            Some(Ipv6Method::SixToFour)
        } else if text_eq(s, "off") {
            Some(Ipv6Method::Off)
        } else {
            None
        }
    }
}

impl Ipv6Method {
    /// The spelling of this value on the wire.
    pub open spec fn wire_name(self) -> Seq<char> {
        match self {
            Ipv6Method::Auto => "auto"@,
            Ipv6Method::Manual => "manual"@,
            Ipv6Method::SixToFour => "6to4"@,
            Ipv6Method::Off => "off"@,
        }
    }

    /// The spelling of this value on the wire.
    pub fn name(self) -> (name: &'static str)
        ensures
            name@ == self.wire_name(),
    {
        match self {
            Ipv6Method::Auto => "auto",
            Ipv6Method::Manual => "manual",
            Ipv6Method::SixToFour => "6to4",
            Ipv6Method::Off => "off",
        }
    }
}

impl Ipv6Method {
    /// No two values share a spelling, and each spelling reads as its own.
    pub proof fn lemma_names_differ()
        ensures
            forall|a: Ipv6Method, b: Ipv6Method|
                #[trigger] a.wire_name() == #[trigger] b.wire_name() ==> a == b,
            forall|a: Ipv6Method| Ipv6Method::parsed(#[trigger] a.wire_name()) == Some(a),
    {
        reveal_strlit("auto");
        reveal_strlit("manual");
        reveal_strlit("6to4");
        reveal_strlit("off");
        assert("auto"@.len() == 4);
        assert("manual"@.len() == 6);
        assert("6to4"@.len() == 4);
        assert("off"@.len() == 3);
        assert("auto"@[0] == 'a');
        assert("6to4"@[0] == '6');
    }
}

/// The IPv6 privacy extension's setting, in the daemon's own spelling.
#[derive(Clone, Copy, Debug, PartialEq, Eq)]
pub enum Ipv6Privacy {
    Disabled,
    Enabled,
    Prefered,
}

impl DeepView for Ipv6Privacy {
    type V = Ipv6Privacy;

    open spec fn deep_view(&self) -> Ipv6Privacy {
        *self
    }
}

impl Parse for Ipv6Privacy {
    open spec fn parsed(text: Seq<char>) -> Option<Ipv6Privacy> {
        if text == "disabled"@ {
            Some(Ipv6Privacy::Disabled)
        } else if text == "enabled"@ {
            Some(Ipv6Privacy::Enabled)
        } else if text == "prefered"@ {
            Some(Ipv6Privacy::Prefered)
        } else {
            None
        }
    }

    fn from_str(s: &str) -> (value: Option<Ipv6Privacy>)
        ensures
            value.deep_view() == Self::parsed(s@),
    {
        if text_eq(s, "disabled") {
            Some(Ipv6Privacy::Disabled)
        } else if text_eq(s, "enabled") {
            Some(Ipv6Privacy::Enabled)
        } else if text_eq(s, "prefered") {
            Some(Ipv6Privacy::Prefered)
        } else {
            None
        }
    }
}

impl Ipv6Privacy {
    /// The spelling of this value on the wire.
    pub open spec fn wire_name(self) -> Seq<char> {
        match self {
            Ipv6Privacy::Disabled => "disabled"@,
            Ipv6Privacy::Enabled => "enabled"@,
            Ipv6Privacy::Prefered => "prefered"@,
        }
    }

    /// The spelling of this value on the wire.
    pub fn name(self) -> (name: &'static str)
        ensures
            name@ == self.wire_name(),
    {
        match self {
            Ipv6Privacy::Disabled => "disabled",
            Ipv6Privacy::Enabled => "enabled",
            Ipv6Privacy::Prefered => "prefered",
        }
    }
}

impl Ipv6Privacy {
    /// No two values share a spelling, and each spelling reads as its own.
    pub proof fn lemma_names_differ()
        ensures
            forall|a: Ipv6Privacy, b: Ipv6Privacy|
                #[trigger] a.wire_name() == #[trigger] b.wire_name() ==> a == b,
            forall|a: Ipv6Privacy| Ipv6Privacy::parsed(#[trigger] a.wire_name()) == Some(a),
    {
        reveal_strlit("disabled");
        reveal_strlit("enabled");
        reveal_strlit("prefered");
        assert("disabled"@.len() == 8);
        assert("enabled"@.len() == 7);
        assert("prefered"@.len() == 8);
        assert("disabled"@[0] == 'd');
        assert("prefered"@[0] == 'p');
    }
}

/// The fields of a proxy configuration.
#[derive(Clone, Copy, Debug, PartialEq, Eq)]
pub enum ProxyKind {
    Method,
    Url,
    Servers,
    Excludes,
}

impl DeepView for ProxyKind {
    type V = ProxyKind;

    open spec fn deep_view(&self) -> ProxyKind {
        *self
    }
}

impl Parse for ProxyKind {
    open spec fn parsed(text: Seq<char>) -> Option<ProxyKind> {
        if text == "Method"@ {
            Some(ProxyKind::Method)
        } else if text == "Url"@ {
            Some(ProxyKind::Url)
        } else if text == "Servers"@ {
            Some(ProxyKind::Servers)
        } else if text == "Excludes"@ {
            Some(ProxyKind::Excludes)
        } else {
            None
        }
    }

    fn from_str(s: &str) -> (value: Option<ProxyKind>)
        ensures
            value.deep_view() == Self::parsed(s@),
    {
        if text_eq(s, "Method") {
            Some(ProxyKind::Method)
        } else if text_eq(s, "Url") {
            Some(ProxyKind::Url)
        } else if text_eq(s, "Servers") {
            Some(ProxyKind::Servers)
        } else if text_eq(s, "Excludes") {
            Some(ProxyKind::Excludes)
        } else {
            None
        }
    }
}

impl ProxyKind {
    /// The spelling of this value on the wire.
    pub open spec fn wire_name(self) -> Seq<char> {
        match self {
            ProxyKind::Method => "Method"@,
            ProxyKind::Url => "Url"@,
            ProxyKind::Servers => "Servers"@,
            ProxyKind::Excludes => "Excludes"@,
        }
    }

    /// The spelling of this value on the wire.
    pub fn name(self) -> (name: &'static str)
        ensures
            name@ == self.wire_name(),
    {
        match self {
            ProxyKind::Method => "Method",
            ProxyKind::Url => "Url",
            ProxyKind::Servers => "Servers",
            ProxyKind::Excludes => "Excludes",
        }
    }
}

/// How a proxy is chosen.
#[derive(Clone, Copy, Debug, PartialEq, Eq)]
pub enum ProxyMethod {
    Direct,
    Auto,
    Manual,
}

impl DeepView for ProxyMethod {
    type V = ProxyMethod;

    open spec fn deep_view(&self) -> ProxyMethod {
        *self
    }
}

impl Parse for ProxyMethod {
    open spec fn parsed(text: Seq<char>) -> Option<ProxyMethod> {
        if text == "direct"@ {
            Some(ProxyMethod::Direct)
        } else if text == "auto"@ {
            Some(ProxyMethod::Auto)
        } else if text == "manual"@ {
            Some(ProxyMethod::Manual)
        } else {
            None
        }
    }

    fn from_str(s: &str) -> (value: Option<ProxyMethod>)
        ensures
            value.deep_view() == Self::parsed(s@),
    {
        if text_eq(s, "direct") {
            Some(ProxyMethod::Direct)
        } else if text_eq(s, "auto") {
            Some(ProxyMethod::Auto)
        } else if text_eq(s, "manual") {
            Some(ProxyMethod::Manual)
        } else {
            None
        }
    }
}

impl ProxyMethod {
    /// The spelling of this value on the wire.
    pub open spec fn wire_name(self) -> Seq<char> {
        match self {
            ProxyMethod::Direct => "direct"@,
            ProxyMethod::Auto => "auto"@,
            ProxyMethod::Manual => "manual"@,
        }
    }

    /// The spelling of this value on the wire.
    pub fn name(self) -> (name: &'static str)
        ensures
            name@ == self.wire_name(),
    {
        match self {
            ProxyMethod::Direct => "direct",
            ProxyMethod::Auto => "auto",
            ProxyMethod::Manual => "manual",
        }
    }
}

impl ProxyMethod {
    /// No two values share a spelling, and each spelling reads as its own.
    pub proof fn lemma_names_differ()
        ensures
            forall|a: ProxyMethod, b: ProxyMethod|
                #[trigger] a.wire_name() == #[trigger] b.wire_name() ==> a == b,
            forall|a: ProxyMethod| ProxyMethod::parsed(#[trigger] a.wire_name()) == Some(a),
    {
        reveal_strlit("direct");
        reveal_strlit("auto");
        reveal_strlit("manual");
        assert("direct"@.len() == 6);
        assert("auto"@.len() == 4);
        assert("manual"@.len() == 6);
        assert("direct"@[0] == 'd');
        assert("manual"@[0] == 'm');
    }
}

/// The fields of a VPN provider.
#[derive(Clone, Copy, Debug, PartialEq, Eq)]
pub enum ProviderKind {
    Host,
    Domain,
    Name,
    Type,
}

impl DeepView for ProviderKind {
    type V = ProviderKind;

    open spec fn deep_view(&self) -> ProviderKind {
        *self
    }
}

impl Parse for ProviderKind {
    open spec fn parsed(text: Seq<char>) -> Option<ProviderKind> {
        if text == "Host"@ {
            Some(ProviderKind::Host)
        } else if text == "Domain"@ {
            Some(ProviderKind::Domain)
        } else if text == "Name"@ {
            Some(ProviderKind::Name)
        } else if text == "Type"@ {
            Some(ProviderKind::Type)
        } else {
            None
        }
    }

    fn from_str(s: &str) -> (value: Option<ProviderKind>)
        ensures
            value.deep_view() == Self::parsed(s@),
    {
        if text_eq(s, "Host") {
            Some(ProviderKind::Host)
        } else if text_eq(s, "Domain") {
            Some(ProviderKind::Domain)
        } else if text_eq(s, "Name") {
            Some(ProviderKind::Name)
        } else if text_eq(s, "Type") {
            Some(ProviderKind::Type)
        } else {
            None
        }
    }
}

impl ProviderKind {
    /// The spelling of this value on the wire.
    pub open spec fn wire_name(self) -> Seq<char> {
        match self {
            ProviderKind::Host => "Host"@,
            ProviderKind::Domain => "Domain"@,
            ProviderKind::Name => "Name"@,
            ProviderKind::Type => "Type"@,
        }
    }

    /// The spelling of this value on the wire.
    pub fn name(self) -> (name: &'static str)
        ensures
            name@ == self.wire_name(),
    {
        match self {
            ProviderKind::Host => "Host",
            ProviderKind::Domain => "Domain",
            ProviderKind::Name => "Name",
            ProviderKind::Type => "Type",
        }
    }
}

/// The fields of an Ethernet configuration.
#[derive(Clone, Copy, Debug, PartialEq, Eq)]
pub enum EthernetKind {
    Method,
    Interface,
    Address,
    Mtu,
}

impl DeepView for EthernetKind {
    type V = EthernetKind;

    open spec fn deep_view(&self) -> EthernetKind {
        *self
    }
}

impl Parse for EthernetKind {
    open spec fn parsed(text: Seq<char>) -> Option<EthernetKind> {
        if text == "Method"@ {
            Some(EthernetKind::Method)
        } else if text == "Interface"@ {
            Some(EthernetKind::Interface)
        } else if text == "Address"@ {
            Some(EthernetKind::Address)
        } else if text == "MTU"@ {
            Some(EthernetKind::Mtu)
        } else {
            None
        }
    }

    fn from_str(s: &str) -> (value: Option<EthernetKind>)
        ensures
            value.deep_view() == Self::parsed(s@),
    {
        if text_eq(s, "Method") {
            Some(EthernetKind::Method)
        } else if text_eq(s, "Interface") {
            Some(EthernetKind::Interface)
        } else if text_eq(s, "Address") {
            Some(EthernetKind::Address)
        } else if text_eq(s, "MTU") {
            Some(EthernetKind::Mtu)
        } else {
            None
        }
    }
}

impl EthernetKind {
    /// The spelling of this value on the wire.
    pub open spec fn wire_name(self) -> Seq<char> {
        match self {
            EthernetKind::Method => "Method"@,
            EthernetKind::Interface => "Interface"@,
            EthernetKind::Address => "Address"@,
            EthernetKind::Mtu => "MTU"@,
        }
    }

    /// The spelling of this value on the wire.
    pub fn name(self) -> (name: &'static str)
        ensures
            name@ == self.wire_name(),
    {
        match self {
            EthernetKind::Method => "Method",
            EthernetKind::Interface => "Interface",
            EthernetKind::Address => "Address",
            EthernetKind::Mtu => "MTU",
        }
    }
}

/// How the Ethernet link is configured.
#[derive(Clone, Copy, Debug, PartialEq, Eq)]
pub enum EthernetMethod {
    Auto,
    Manual,
}

impl DeepView for EthernetMethod {
    type V = EthernetMethod;

    open spec fn deep_view(&self) -> EthernetMethod {
        *self
    }
}

impl Parse for EthernetMethod {
    open spec fn parsed(text: Seq<char>) -> Option<EthernetMethod> {
        if text == "auto"@ {
            Some(EthernetMethod::Auto)
        } else if text == "manual"@ {
            Some(EthernetMethod::Manual)
        } else {
            None
        }
    }

    fn from_str(s: &str) -> (value: Option<EthernetMethod>)
        ensures
            value.deep_view() == Self::parsed(s@),
    {
        if text_eq(s, "auto") {
            Some(EthernetMethod::Auto)
        } else if text_eq(s, "manual") {
            Some(EthernetMethod::Manual)
        } else {
            None
        }
    }
}

impl EthernetMethod {
    /// The spelling of this value on the wire.
    pub open spec fn wire_name(self) -> Seq<char> {
        match self {
            EthernetMethod::Auto => "auto"@,
            EthernetMethod::Manual => "manual"@,
        }
    }

    /// The spelling of this value on the wire.
    pub fn name(self) -> (name: &'static str)
        ensures
            name@ == self.wire_name(),
    {
        match self {
            EthernetMethod::Auto => "auto",
            EthernetMethod::Manual => "manual",
        }
    }
}

impl EthernetMethod {
    /// No two values share a spelling, and each spelling reads as its own.
    pub proof fn lemma_names_differ()
        ensures
            forall|a: EthernetMethod, b: EthernetMethod|
                #[trigger] a.wire_name() == #[trigger] b.wire_name() ==> a == b,
            forall|a: EthernetMethod| EthernetMethod::parsed(#[trigger] a.wire_name()) == Some(a),
    {
        reveal_strlit("auto");
        reveal_strlit("manual");
        assert("auto"@.len() == 4);
        assert("manual"@.len() == 6);
    }
}
/// The properties of a service.
#[derive(Clone, Copy, Debug, PartialEq, Eq)]
pub enum PropertyKind {
    State,
    Error,
    Name,
    Type,
    Security,
    Strength,
    Favorite,
    Immutable,
    AutoConnect,
    Roaming,
    Nameservers,
    NameserversConfiguration,
    Timeservers,
    TimeserversConfiguration,
    Domains,
    DomainsConfiguration,
    Ipv4,
    Ipv4Configuration,
    Ipv6,
    Ipv6Configuration,
    Proxy,
    ProxyConfiguration,
    Provider,
    Ethernet,
    Mdns,
    MdnsConfiguration,
}

impl DeepView for PropertyKind {
    type V = PropertyKind;

    open spec fn deep_view(&self) -> PropertyKind {
        *self
    }
}

impl Parse for PropertyKind {
    open spec fn parsed(text: Seq<char>) -> Option<PropertyKind> {
        if text == "State"@ {
            Some(PropertyKind::State)
        } else if text == "Error"@ {
            Some(PropertyKind::Error)
        } else if text == "Name"@ {
            Some(PropertyKind::Name)
        } else if text == "Type"@ {
            Some(PropertyKind::Type)
        } else if text == "Security"@ {
            Some(PropertyKind::Security)
        } else if text == "Strength"@ {
            Some(PropertyKind::Strength)
        } else if text == "Favorite"@ {
            Some(PropertyKind::Favorite)
        } else if text == "Immutable"@ {
            Some(PropertyKind::Immutable)
        } else if text == "AutoConnect"@ {
            Some(PropertyKind::AutoConnect)
        } else if text == "Roaming"@ {
            Some(PropertyKind::Roaming)
        } else if text == "Nameservers"@ {
            Some(PropertyKind::Nameservers)
        } else if text == "Nameservers.Configuration"@ {
            Some(PropertyKind::NameserversConfiguration)
        } else if text == "Timeservers"@ {
            Some(PropertyKind::Timeservers)
        } else if text == "Timeservers.Configuration"@ {
            Some(PropertyKind::TimeserversConfiguration)
        } else if text == "Domains"@ {
            Some(PropertyKind::Domains)
        } else if text == "Domains.Configuration"@ {
            Some(PropertyKind::DomainsConfiguration)
        } else if text == "IPv4"@ {
            Some(PropertyKind::Ipv4)
        } else if text == "IPv4.Configuration"@ {
            Some(PropertyKind::Ipv4Configuration)
        } else if text == "IPv6"@ {
            Some(PropertyKind::Ipv6)
        } else if text == "IPv6.Configuration"@ {
            Some(PropertyKind::Ipv6Configuration)
        } else if text == "Proxy"@ {
            Some(PropertyKind::Proxy)
        } else if text == "Proxy.Configuration"@ {
            Some(PropertyKind::ProxyConfiguration)
        } else if text == "Provider"@ {
            Some(PropertyKind::Provider)
        } else if text == "Ethernet"@ {
            Some(PropertyKind::Ethernet)
        } else if text == "mDNS"@ {
            Some(PropertyKind::Mdns)
        } else if text == "mDNS.Configuration"@ {
            Some(PropertyKind::MdnsConfiguration)
        } else {
            None
        }
    }

    fn from_str(s: &str) -> (value: Option<PropertyKind>)
        ensures
            value.deep_view() == Self::parsed(s@),
    {
        if text_eq(s, "State") {
            Some(PropertyKind::State)
        } else if text_eq(s, "Error") {
            Some(PropertyKind::Error)
        } else if text_eq(s, "Name") {
            Some(PropertyKind::Name)
        } else if text_eq(s, "Type") {
            Some(PropertyKind::Type)
        } else if text_eq(s, "Security") {
            Some(PropertyKind::Security)
        } else if text_eq(s, "Strength") {
            Some(PropertyKind::Strength)
        } else if text_eq(s, "Favorite") {
            Some(PropertyKind::Favorite)
        } else if text_eq(s, "Immutable") {
            Some(PropertyKind::Immutable)
        } else if text_eq(s, "AutoConnect") {
            Some(PropertyKind::AutoConnect)
        } else if text_eq(s, "Roaming") {
            Some(PropertyKind::Roaming)
        } else if text_eq(s, "Nameservers") {
            Some(PropertyKind::Nameservers)
        } else if text_eq(s, "Nameservers.Configuration") {
            Some(PropertyKind::NameserversConfiguration)
        } else if text_eq(s, "Timeservers") {
            Some(PropertyKind::Timeservers)
        } else if text_eq(s, "Timeservers.Configuration") {
            Some(PropertyKind::TimeserversConfiguration)
        } else if text_eq(s, "Domains") {
            Some(PropertyKind::Domains)
        } else if text_eq(s, "Domains.Configuration") {
            Some(PropertyKind::DomainsConfiguration)
        } else if text_eq(s, "IPv4") {
            Some(PropertyKind::Ipv4)
        } else if text_eq(s, "IPv4.Configuration") {
            Some(PropertyKind::Ipv4Configuration)
        } else if text_eq(s, "IPv6") {
            Some(PropertyKind::Ipv6)
        } else if text_eq(s, "IPv6.Configuration") {
            Some(PropertyKind::Ipv6Configuration)
        } else if text_eq(s, "Proxy") {
            Some(PropertyKind::Proxy)
        } else if text_eq(s, "Proxy.Configuration") {
            Some(PropertyKind::ProxyConfiguration)
        } else if text_eq(s, "Provider") {
            Some(PropertyKind::Provider)
        } else if text_eq(s, "Ethernet") {
            Some(PropertyKind::Ethernet)
        } else if text_eq(s, "mDNS") {
            Some(PropertyKind::Mdns)
        } else if text_eq(s, "mDNS.Configuration") {
            Some(PropertyKind::MdnsConfiguration)
        } else {
            None
        }
    }
}

impl PropertyKind {
    /// The spelling of this value on the wire.
    pub open spec fn wire_name(self) -> Seq<char> {
        match self {
            PropertyKind::State => "State"@,
            PropertyKind::Error => "Error"@,
            PropertyKind::Name => "Name"@,
            PropertyKind::Type => "Type"@,
            PropertyKind::Security => "Security"@,
            PropertyKind::Strength => "Strength"@,
            PropertyKind::Favorite => "Favorite"@,
            PropertyKind::Immutable => "Immutable"@,
            PropertyKind::AutoConnect => "AutoConnect"@,
            PropertyKind::Roaming => "Roaming"@,
            PropertyKind::Nameservers => "Nameservers"@,
            PropertyKind::NameserversConfiguration => "Nameservers.Configuration"@,
            PropertyKind::Timeservers => "Timeservers"@,
            PropertyKind::TimeserversConfiguration => "Timeservers.Configuration"@,
            PropertyKind::Domains => "Domains"@,
            PropertyKind::DomainsConfiguration => "Domains.Configuration"@,
            PropertyKind::Ipv4 => "IPv4"@,
            PropertyKind::Ipv4Configuration => "IPv4.Configuration"@,
            PropertyKind::Ipv6 => "IPv6"@,
            PropertyKind::Ipv6Configuration => "IPv6.Configuration"@,
            PropertyKind::Proxy => "Proxy"@,
            PropertyKind::ProxyConfiguration => "Proxy.Configuration"@,
            PropertyKind::Provider => "Provider"@,
            PropertyKind::Ethernet => "Ethernet"@,
            PropertyKind::Mdns => "mDNS"@,
            PropertyKind::MdnsConfiguration => "mDNS.Configuration"@,
        }
    }

    /// The spelling of this value on the wire.
    pub fn name(self) -> (name: &'static str)
        ensures
            name@ == self.wire_name(),
    {
        match self {
            PropertyKind::State => "State",
            PropertyKind::Error => "Error",
            PropertyKind::Name => "Name",
            PropertyKind::Type => "Type",
            PropertyKind::Security => "Security",
            PropertyKind::Strength => "Strength",
            PropertyKind::Favorite => "Favorite",
            PropertyKind::Immutable => "Immutable",
            PropertyKind::AutoConnect => "AutoConnect",
            PropertyKind::Roaming => "Roaming",
            PropertyKind::Nameservers => "Nameservers",
            PropertyKind::NameserversConfiguration => "Nameservers.Configuration",
            PropertyKind::Timeservers => "Timeservers",
            PropertyKind::TimeserversConfiguration => "Timeservers.Configuration",
            PropertyKind::Domains => "Domains",
            PropertyKind::DomainsConfiguration => "Domains.Configuration",
            PropertyKind::Ipv4 => "IPv4",
            PropertyKind::Ipv4Configuration => "IPv4.Configuration",
            PropertyKind::Ipv6 => "IPv6",
            PropertyKind::Ipv6Configuration => "IPv6.Configuration",
            PropertyKind::Proxy => "Proxy",
            PropertyKind::ProxyConfiguration => "Proxy.Configuration",
            PropertyKind::Provider => "Provider",
            PropertyKind::Ethernet => "Ethernet",
            PropertyKind::Mdns => "mDNS",
            PropertyKind::MdnsConfiguration => "mDNS.Configuration",
        }
    }
}
impl Ipv4Kind {
    /// No two fields share a spelling, and each spelling reads as its field.
    pub proof fn lemma_names_differ()
        ensures
            forall|a: Ipv4Kind, b: Ipv4Kind|
                #[trigger] a.wire_name() == #[trigger] b.wire_name() ==> a == b,
            forall|a: Ipv4Kind| Ipv4Kind::parsed(#[trigger] a.wire_name()) == Some(a),
    {
        reveal_strlit("Method");
        reveal_strlit("Address");
        reveal_strlit("Netmask");
        reveal_strlit("Gateway");
        assert("Method"@.len() == 6 && "Method"@[0] == 'M');
        assert("Address"@.len() == 7 && "Address"@[0] == 'A');
        assert("Netmask"@.len() == 7 && "Netmask"@[0] == 'N');
        assert("Gateway"@.len() == 7 && "Gateway"@[0] == 'G');
    }
}

/// The mathematical content of an [`Ipv4`].
pub ghost struct Ipv4View {
    pub method: Option<Ipv4Method>,
    pub address: Option<Seq<char>>,
    pub netmask: Option<Seq<char>>,
    pub gateway: Option<Seq<char>>,
}

/// An IPv4 configuration. A field that the daemon left out, or sent in a
/// form that does not read, is `None`.
#[derive(Clone, Debug, PartialEq, Eq)]
pub struct Ipv4 {
    pub method: Option<Ipv4Method>,
    pub address: Option<String>,
    pub netmask: Option<String>,
    pub gateway: Option<String>,
}

impl DeepView for Ipv4 {
    type V = Ipv4View;

    open spec fn deep_view(&self) -> Ipv4View {
        Ipv4View {
            method: self.method,
            address: self.address.deep_view(),
            netmask: self.netmask.deep_view(),
            gateway: self.gateway.deep_view(),
        }
    }
}

impl Composite for Ipv4 {
    open spec fn fields(read: Seq<(Seq<char>, Value)>) -> Ipv4View {
        Ipv4View {
            method: last_parsed(read, Ipv4Kind::Method.wire_name(), parsed_rule::<Ipv4Method>()),
            address: last_parsed(read, Ipv4Kind::Address.wire_name(), text_rule()),
            netmask: last_parsed(read, Ipv4Kind::Netmask.wire_name(), text_rule()),
            gateway: last_parsed(read, Ipv4Kind::Gateway.wire_name(), text_rule()),
        }
    }

    fn from_elements(elements: &Vec<DynamicValue>) -> (decoded: Ipv4)
        ensures
            decoded.deep_view() == Ipv4::fields(pairs(elements.deep_view())),
    {
        let mut decoded = Ipv4 { method: None, address: None, netmask: None, gateway: None };
        let mut walk = Pairs::new(elements);
        loop
            invariant_except_break
                walk.well_formed(),
                walk.source() == elements.deep_view(),
                decoded.deep_view() == Ipv4::fields(walk.seen()),
            ensures
                decoded.deep_view() == Ipv4::fields(pairs(elements.deep_view())),
            decreases pairs(elements.deep_view()).len() - walk.seen().len(),
        {
            let ghost seen = walk.seen();
            let (key, value) = match walk.next() {
                Some(pair) => pair,
                None => break,
            };
            proof {
                let pair = (key@, value.deep_view());
                Ipv4Kind::lemma_names_differ();
                assert(Ipv4Kind::Method.wire_name() == "Method"@);
                lemma_last_parsed_push(seen, pair, "Method"@, parsed_rule::<Ipv4Method>());
                assert(Ipv4Kind::Address.wire_name() == "Address"@);
                lemma_last_parsed_push(seen, pair, "Address"@, text_rule());
                assert(Ipv4Kind::Netmask.wire_name() == "Netmask"@);
                lemma_last_parsed_push(seen, pair, "Netmask"@, text_rule());
                assert(Ipv4Kind::Gateway.wire_name() == "Gateway"@);
                lemma_last_parsed_push(seen, pair, "Gateway"@, text_rule());
            }
            match Ipv4Kind::from_str(key) {
                Some(Ipv4Kind::Method) => {
                    if let Some(text) = value.as_str() {
                        if let Some(method) = Ipv4Method::from_str(text) {
                            decoded.method = Some(method);
                        }
                    }
                },
                Some(Ipv4Kind::Address) => {
                    if let Some(text) = value.as_str() {
                        decoded.address = Some(text.to_owned());
                    }
                },
                Some(Ipv4Kind::Netmask) => {
                    if let Some(text) = value.as_str() {
                        decoded.netmask = Some(text.to_owned());
                    }
                },
                Some(Ipv4Kind::Gateway) => {
                    if let Some(text) = value.as_str() {
                        decoded.gateway = Some(text.to_owned());
                    }
                },
                None => {},
            }
        }
        decoded
    }
}

impl Ipv4 {
    /// One pair that does not read costs its own field and no other: a
    /// field of another name is as it was, and the pair's own field is
    /// `None` where no other pair has its name.
    pub proof fn lemma_malformed_pair(read: Seq<(Seq<char>, Value)>, at: int, bad: Value)
        requires
            0 <= at < read.len(),
        ensures
            ({
                let changed = read.update(at, (read[at].0, bad));
                let alone = forall|i: int|
                    0 <= i < read.len() && i != at ==> (#[trigger] read[i]).0 != read[at].0;
                &&& read[at].0 != "Method"@ ==> Ipv4::fields(changed).method
                    == Ipv4::fields(read).method
                &&& read[at].0 == "Method"@ && alone && parsed_rule::<Ipv4Method>()(bad) is None
                    ==> Ipv4::fields(changed).method is None
                &&& read[at].0 != "Address"@ ==> Ipv4::fields(changed).address
                    == Ipv4::fields(read).address
                &&& read[at].0 == "Address"@ && alone && text_rule()(bad) is None
                    ==> Ipv4::fields(changed).address is None
                &&& read[at].0 != "Netmask"@ ==> Ipv4::fields(changed).netmask
                    == Ipv4::fields(read).netmask
                &&& read[at].0 == "Netmask"@ && alone && text_rule()(bad) is None
                    ==> Ipv4::fields(changed).netmask is None
                &&& read[at].0 != "Gateway"@ ==> Ipv4::fields(changed).gateway
                    == Ipv4::fields(read).gateway
                &&& read[at].0 == "Gateway"@ && alone && text_rule()(bad) is None
                    ==> Ipv4::fields(changed).gateway is None
            }),
    {
        let changed = read.update(at, (read[at].0, bad));
        let alone = forall|i: int|
            0 <= i < read.len() && i != at ==> (#[trigger] read[i]).0 != read[at].0;
        if read[at].0 != "Method"@ {
            lemma_last_parsed_other_name(read, at, bad, "Method"@, parsed_rule::<Ipv4Method>());
        } else if alone {
            assert forall|i: int|
                0 <= i < changed.len() && changed[i].0 == "Method"@ implies i == at by {
                if i != at {
                    assert(read[i].0 != read[at].0);
                }
            }
            lemma_last_parsed_single(changed, at, "Method"@, parsed_rule::<Ipv4Method>());
        }
        if read[at].0 != "Address"@ {
            lemma_last_parsed_other_name(read, at, bad, "Address"@, text_rule());
        } else if alone {
            assert forall|i: int|
                0 <= i < changed.len() && changed[i].0 == "Address"@ implies i == at by {
                if i != at {
                    assert(read[i].0 != read[at].0);
                }
            }
            lemma_last_parsed_single(changed, at, "Address"@, text_rule());
        }
        if read[at].0 != "Netmask"@ {
            lemma_last_parsed_other_name(read, at, bad, "Netmask"@, text_rule());
        } else if alone {
            assert forall|i: int|
                0 <= i < changed.len() && changed[i].0 == "Netmask"@ implies i == at by {
                if i != at {
                    assert(read[i].0 != read[at].0);
                }
            }
            lemma_last_parsed_single(changed, at, "Netmask"@, text_rule());
        }
        if read[at].0 != "Gateway"@ {
            lemma_last_parsed_other_name(read, at, bad, "Gateway"@, text_rule());
        } else if alone {
            assert forall|i: int|
                0 <= i < changed.len() && changed[i].0 == "Gateway"@ implies i == at by {
                if i != at {
                    assert(read[i].0 != read[at].0);
                }
            }
            lemma_last_parsed_single(changed, at, "Gateway"@, text_rule());
        }
    }
}

impl Ipv4View {
    /// The entries of the dictionary that says exactly what this value
    /// holds: one entry for each field that is not `None`.
    pub open spec fn entries(self) -> Seq<(Seq<char>, Value)> {
        let with_method = match self.method {
            Some(method) => Seq::<(Seq<char>, Value)>::empty().push(
                (Ipv4Kind::Method.wire_name(), Value::Str(method.wire_name())),
            ),
            None => Seq::<(Seq<char>, Value)>::empty(),
        };
        let with_address = match self.address {
            Some(address) => with_method.push((Ipv4Kind::Address.wire_name(), Value::Str(address))),
            None => with_method,
        };
        let with_netmask = match self.netmask {
            Some(netmask) => with_address.push(
                (Ipv4Kind::Netmask.wire_name(), Value::Str(netmask)),
            ),
            None => with_address,
        };
        match self.gateway {
            Some(gateway) => with_netmask.push(
                (Ipv4Kind::Gateway.wire_name(), Value::Str(gateway)),
            ),
            None => with_netmask,
        }
    }

    /// Decoding the entries of a value gives the value back.
    pub proof fn lemma_round_trip(self)
        ensures
            Ipv4::fields(self.entries()) == self,
    {
        Ipv4Kind::lemma_names_differ();
        Ipv4Method::lemma_names_differ();
        let with_nothing = Seq::<(Seq<char>, Value)>::empty();
        let with_method = match self.method {
            Some(method) => with_nothing.push(
                (Ipv4Kind::Method.wire_name(), Value::Str(method.wire_name())),
            ),
            None => with_nothing,
        };
        if let Some(method) = self.method {
            let pair = (Ipv4Kind::Method.wire_name(), Value::Str(method.wire_name()));
            lemma_last_parsed_push(
                with_nothing,
                pair,
                Ipv4Kind::Method.wire_name(),
                parsed_rule::<Ipv4Method>(),
            );
            lemma_last_parsed_push(with_nothing, pair, Ipv4Kind::Address.wire_name(), text_rule());
            lemma_last_parsed_push(with_nothing, pair, Ipv4Kind::Netmask.wire_name(), text_rule());
            lemma_last_parsed_push(with_nothing, pair, Ipv4Kind::Gateway.wire_name(), text_rule());
        }
        let with_address = match self.address {
            Some(address) => with_method.push((Ipv4Kind::Address.wire_name(), Value::Str(address))),
            None => with_method,
        };
        if let Some(address) = self.address {
            let pair = (Ipv4Kind::Address.wire_name(), Value::Str(address));
            lemma_last_parsed_push(
                with_method,
                pair,
                Ipv4Kind::Method.wire_name(),
                parsed_rule::<Ipv4Method>(),
            );
            lemma_last_parsed_push(with_method, pair, Ipv4Kind::Address.wire_name(), text_rule());
            lemma_last_parsed_push(with_method, pair, Ipv4Kind::Netmask.wire_name(), text_rule());
            lemma_last_parsed_push(with_method, pair, Ipv4Kind::Gateway.wire_name(), text_rule());
        }
        let with_netmask = match self.netmask {
            Some(netmask) => with_address.push(
                (Ipv4Kind::Netmask.wire_name(), Value::Str(netmask)),
            ),
            None => with_address,
        };
        if let Some(netmask) = self.netmask {
            let pair = (Ipv4Kind::Netmask.wire_name(), Value::Str(netmask));
            lemma_last_parsed_push(
                with_address,
                pair,
                Ipv4Kind::Method.wire_name(),
                parsed_rule::<Ipv4Method>(),
            );
            lemma_last_parsed_push(with_address, pair, Ipv4Kind::Address.wire_name(), text_rule());
            lemma_last_parsed_push(with_address, pair, Ipv4Kind::Netmask.wire_name(), text_rule());
            lemma_last_parsed_push(with_address, pair, Ipv4Kind::Gateway.wire_name(), text_rule());
        }
        let with_gateway = match self.gateway {
            Some(gateway) => with_netmask.push(
                (Ipv4Kind::Gateway.wire_name(), Value::Str(gateway)),
            ),
            None => with_netmask,
        };
        if let Some(gateway) = self.gateway {
            let pair = (Ipv4Kind::Gateway.wire_name(), Value::Str(gateway));
            lemma_last_parsed_push(
                with_netmask,
                pair,
                Ipv4Kind::Method.wire_name(),
                parsed_rule::<Ipv4Method>(),
            );
            lemma_last_parsed_push(with_netmask, pair, Ipv4Kind::Address.wire_name(), text_rule());
            lemma_last_parsed_push(with_netmask, pair, Ipv4Kind::Netmask.wire_name(), text_rule());
            lemma_last_parsed_push(with_netmask, pair, Ipv4Kind::Gateway.wire_name(), text_rule());
        }
        assert(self.entries() == with_gateway);
    }
}

impl FromProperties for Ipv4 {
    /// The property must be there and be an array or a dictionary; what it
    /// holds is then decoded without fail.
    open spec fn extracted(properties: Map<Seq<char>, Value>, name: Seq<char>) -> Result<
        Ipv4View,
        PropertyErrorView,
    > {
        match elements_property(properties, name) {
            Ok(elements) => Ok(Ipv4::fields(pairs(elements))),
            Err(error) => Err(error),
        }
    }

    fn from_properties(properties: &PropertyMap, prop_name: &str) -> (result: Result<
        Ipv4,
        PropertyError,
    >)
        ensures
            outcome(result) == Self::extracted(properties.deep_view(), prop_name@),
    {
        match get_property_argiter(properties, prop_name) {
            Ok(elements) => Ok(Ipv4::from_elements(&elements)),
            Err(error) => Err(error),
        }
    }

    proof fn lemma_extracted_error(properties: Map<Seq<char>, Value>, name: Seq<char>) {
    }
}

impl ProviderKind {
    /// No two fields share a spelling, and each spelling reads as its field.
    pub proof fn lemma_names_differ()
        ensures
            forall|a: ProviderKind, b: ProviderKind|
                #[trigger] a.wire_name() == #[trigger] b.wire_name() ==> a == b,
            forall|a: ProviderKind| ProviderKind::parsed(#[trigger] a.wire_name()) == Some(a),
    {
        reveal_strlit("Host");
        reveal_strlit("Domain");
        reveal_strlit("Name");
        reveal_strlit("Type");
        assert("Host"@.len() == 4 && "Host"@[0] == 'H');
        assert("Domain"@.len() == 6 && "Domain"@[0] == 'D');
        assert("Name"@.len() == 4 && "Name"@[0] == 'N');
        assert("Type"@.len() == 4 && "Type"@[0] == 'T');
    }
}

/// The mathematical content of a [`Provider`].
pub ghost struct ProviderView {
    pub host: Option<Seq<char>>,
    pub domain: Option<Seq<char>>,
    pub name: Option<Seq<char>>,
    pub type_: Option<Seq<char>>,
}

/// A VPN provider. A field that the daemon left out, or sent in a form
/// that does not read, is `None`.
#[derive(Clone, Debug, PartialEq, Eq)]
pub struct Provider {
    pub host: Option<String>,
    pub domain: Option<String>,
    pub name: Option<String>,
    pub type_: Option<String>,
}

impl DeepView for Provider {
    type V = ProviderView;

    open spec fn deep_view(&self) -> ProviderView {
        ProviderView {
            host: self.host.deep_view(),
            domain: self.domain.deep_view(),
            name: self.name.deep_view(),
            type_: self.type_.deep_view(),
        }
    }
}

impl Composite for Provider {
    open spec fn fields(read: Seq<(Seq<char>, Value)>) -> ProviderView {
        ProviderView {
            host: last_parsed(read, ProviderKind::Host.wire_name(), text_rule()),
            domain: last_parsed(read, ProviderKind::Domain.wire_name(), text_rule()),
            name: last_parsed(read, ProviderKind::Name.wire_name(), text_rule()),
            type_: last_parsed(read, ProviderKind::Type.wire_name(), text_rule()),
        }
    }

    fn from_elements(elements: &Vec<DynamicValue>) -> (decoded: Provider)
        ensures
            decoded.deep_view() == Provider::fields(pairs(elements.deep_view())),
    {
        let mut decoded = Provider { host: None, domain: None, name: None, type_: None };
        let mut walk = Pairs::new(elements);
        loop
            invariant_except_break
                walk.well_formed(),
                walk.source() == elements.deep_view(),
                decoded.deep_view() == Provider::fields(walk.seen()),
            ensures
                decoded.deep_view() == Provider::fields(pairs(elements.deep_view())),
            decreases pairs(elements.deep_view()).len() - walk.seen().len(),
        {
            let ghost seen = walk.seen();
            let (key, value) = match walk.next() {
                Some(pair) => pair,
                None => break,
            };
            proof {
                let pair = (key@, value.deep_view());
                ProviderKind::lemma_names_differ();
                assert(ProviderKind::Host.wire_name() == "Host"@);
                lemma_last_parsed_push(seen, pair, "Host"@, text_rule());
                assert(ProviderKind::Domain.wire_name() == "Domain"@);
                lemma_last_parsed_push(seen, pair, "Domain"@, text_rule());
                assert(ProviderKind::Name.wire_name() == "Name"@);
                lemma_last_parsed_push(seen, pair, "Name"@, text_rule());
                assert(ProviderKind::Type.wire_name() == "Type"@);
                lemma_last_parsed_push(seen, pair, "Type"@, text_rule());
            }
            match ProviderKind::from_str(key) {
                Some(ProviderKind::Host) => {
                    if let Some(text) = value.as_str() {
                        decoded.host = Some(text.to_owned());
                    }
                },
                Some(ProviderKind::Domain) => {
                    if let Some(text) = value.as_str() {
                        decoded.domain = Some(text.to_owned());
                    }
                },
                Some(ProviderKind::Name) => {
                    if let Some(text) = value.as_str() {
                        decoded.name = Some(text.to_owned());
                    }
                },
                Some(ProviderKind::Type) => {
                    if let Some(text) = value.as_str() {
                        decoded.type_ = Some(text.to_owned());
                    }
                },
                None => {},
            }
        }
        decoded
    }
}

impl Provider {
    /// One pair that does not read costs its own field and no other: a
    /// field of another name is as it was, and the pair's own field is
    /// `None` where no other pair has its name.
    pub proof fn lemma_malformed_pair(read: Seq<(Seq<char>, Value)>, at: int, bad: Value)
        requires
            0 <= at < read.len(),
        ensures
            ({
                let changed = read.update(at, (read[at].0, bad));
                let alone = forall|i: int|
                    0 <= i < read.len() && i != at ==> (#[trigger] read[i]).0 != read[at].0;
                &&& read[at].0 != "Host"@ ==> Provider::fields(changed).host
                    == Provider::fields(read).host
                &&& read[at].0 == "Host"@ && alone && text_rule()(bad) is None
                    ==> Provider::fields(changed).host is None
                &&& read[at].0 != "Domain"@ ==> Provider::fields(changed).domain
                    == Provider::fields(read).domain
                &&& read[at].0 == "Domain"@ && alone && text_rule()(bad) is None
                    ==> Provider::fields(changed).domain is None
                &&& read[at].0 != "Name"@ ==> Provider::fields(changed).name
                    == Provider::fields(read).name
                &&& read[at].0 == "Name"@ && alone && text_rule()(bad) is None
                    ==> Provider::fields(changed).name is None
                &&& read[at].0 != "Type"@ ==> Provider::fields(changed).type_
                    == Provider::fields(read).type_
                &&& read[at].0 == "Type"@ && alone && text_rule()(bad) is None
                    ==> Provider::fields(changed).type_ is None
            }),
    {
        let changed = read.update(at, (read[at].0, bad));
        let alone = forall|i: int|
            0 <= i < read.len() && i != at ==> (#[trigger] read[i]).0 != read[at].0;
        if read[at].0 != "Host"@ {
            lemma_last_parsed_other_name(read, at, bad, "Host"@, text_rule());
        } else if alone {
            assert forall|i: int|
                0 <= i < changed.len() && changed[i].0 == "Host"@ implies i == at by {
                if i != at {
                    assert(read[i].0 != read[at].0);
                }
            }
            lemma_last_parsed_single(changed, at, "Host"@, text_rule());
        }
        if read[at].0 != "Domain"@ {
            lemma_last_parsed_other_name(read, at, bad, "Domain"@, text_rule());
        } else if alone {
            assert forall|i: int|
                0 <= i < changed.len() && changed[i].0 == "Domain"@ implies i == at by {
                if i != at {
                    assert(read[i].0 != read[at].0);
                }
            }
            lemma_last_parsed_single(changed, at, "Domain"@, text_rule());
        }
        if read[at].0 != "Name"@ {
            lemma_last_parsed_other_name(read, at, bad, "Name"@, text_rule());
        } else if alone {
            assert forall|i: int|
                0 <= i < changed.len() && changed[i].0 == "Name"@ implies i == at by {
                if i != at {
                    assert(read[i].0 != read[at].0);
                }
            }
            lemma_last_parsed_single(changed, at, "Name"@, text_rule());
        }
        if read[at].0 != "Type"@ {
            lemma_last_parsed_other_name(read, at, bad, "Type"@, text_rule());
        } else if alone {
            assert forall|i: int|
                0 <= i < changed.len() && changed[i].0 == "Type"@ implies i == at by {
                if i != at {
                    assert(read[i].0 != read[at].0);
                }
            }
            lemma_last_parsed_single(changed, at, "Type"@, text_rule());
        }
    }
}

impl ProviderView {
    /// The entries of the dictionary that says exactly what this value
    /// holds: one entry for each field that is not `None`.
    pub open spec fn entries(self) -> Seq<(Seq<char>, Value)> {
        let with_host = match self.host {
            Some(host) => Seq::<(Seq<char>, Value)>::empty().push(
                (ProviderKind::Host.wire_name(), Value::Str(host)),
            ),
            None => Seq::<(Seq<char>, Value)>::empty(),
        };
        let with_domain = match self.domain {
            Some(domain) => with_host.push((ProviderKind::Domain.wire_name(), Value::Str(domain))),
            None => with_host,
        };
        let with_name = match self.name {
            Some(name) => with_domain.push((ProviderKind::Name.wire_name(), Value::Str(name))),
            None => with_domain,
        };
        match self.type_ {
            Some(type_) => with_name.push((ProviderKind::Type.wire_name(), Value::Str(type_))),
            None => with_name,
        }
    }

    /// Decoding the entries of a value gives the value back.
    pub proof fn lemma_round_trip(self)
        ensures
            Provider::fields(self.entries()) == self,
    {
        ProviderKind::lemma_names_differ();
        let with_nothing = Seq::<(Seq<char>, Value)>::empty();
        let with_host = match self.host {
            Some(host) => with_nothing.push((ProviderKind::Host.wire_name(), Value::Str(host))),
            None => with_nothing,
        };
        if let Some(host) = self.host {
            let pair = (ProviderKind::Host.wire_name(), Value::Str(host));
            lemma_last_parsed_push(with_nothing, pair, ProviderKind::Host.wire_name(), text_rule());
            lemma_last_parsed_push(
                with_nothing,
                pair,
                ProviderKind::Domain.wire_name(),
                text_rule(),
            );
            lemma_last_parsed_push(with_nothing, pair, ProviderKind::Name.wire_name(), text_rule());
            lemma_last_parsed_push(with_nothing, pair, ProviderKind::Type.wire_name(), text_rule());
        }
        let with_domain = match self.domain {
            Some(domain) => with_host.push((ProviderKind::Domain.wire_name(), Value::Str(domain))),
            None => with_host,
        };
        if let Some(domain) = self.domain {
            let pair = (ProviderKind::Domain.wire_name(), Value::Str(domain));
            lemma_last_parsed_push(with_host, pair, ProviderKind::Host.wire_name(), text_rule());
            lemma_last_parsed_push(with_host, pair, ProviderKind::Domain.wire_name(), text_rule());
            lemma_last_parsed_push(with_host, pair, ProviderKind::Name.wire_name(), text_rule());
            lemma_last_parsed_push(with_host, pair, ProviderKind::Type.wire_name(), text_rule());
        }
        let with_name = match self.name {
            Some(name) => with_domain.push((ProviderKind::Name.wire_name(), Value::Str(name))),
            None => with_domain,
        };
        if let Some(name) = self.name {
            let pair = (ProviderKind::Name.wire_name(), Value::Str(name));
            lemma_last_parsed_push(with_domain, pair, ProviderKind::Host.wire_name(), text_rule());
            lemma_last_parsed_push(
                with_domain,
                pair,
                ProviderKind::Domain.wire_name(),
                text_rule(),
            );
            lemma_last_parsed_push(with_domain, pair, ProviderKind::Name.wire_name(), text_rule());
            lemma_last_parsed_push(with_domain, pair, ProviderKind::Type.wire_name(), text_rule());
        }
        let with_type_ = match self.type_ {
            Some(type_) => with_name.push((ProviderKind::Type.wire_name(), Value::Str(type_))),
            None => with_name,
        };
        if let Some(type_) = self.type_ {
            let pair = (ProviderKind::Type.wire_name(), Value::Str(type_));
            lemma_last_parsed_push(with_name, pair, ProviderKind::Host.wire_name(), text_rule());
            lemma_last_parsed_push(with_name, pair, ProviderKind::Domain.wire_name(), text_rule());
            lemma_last_parsed_push(with_name, pair, ProviderKind::Name.wire_name(), text_rule());
            lemma_last_parsed_push(with_name, pair, ProviderKind::Type.wire_name(), text_rule());
        }
        assert(self.entries() == with_type_);
    }
}

impl FromProperties for Provider {
    /// The property must be there and be an array or a dictionary; what it
    /// holds is then decoded without fail.
    open spec fn extracted(properties: Map<Seq<char>, Value>, name: Seq<char>) -> Result<
        ProviderView,
        PropertyErrorView,
    > {
        match elements_property(properties, name) {
            Ok(elements) => Ok(Provider::fields(pairs(elements))),
            Err(error) => Err(error),
        }
    }

    fn from_properties(properties: &PropertyMap, prop_name: &str) -> (result: Result<
        Provider,
        PropertyError,
    >)
        ensures
            outcome(result) == Self::extracted(properties.deep_view(), prop_name@),
    {
        match get_property_argiter(properties, prop_name) {
            Ok(elements) => Ok(Provider::from_elements(&elements)),
            Err(error) => Err(error),
        }
    }

    proof fn lemma_extracted_error(properties: Map<Seq<char>, Value>, name: Seq<char>) {
    }
}

impl Ipv6Kind {
    /// No two fields share a spelling, and each spelling reads as its own.
    pub proof fn lemma_names_differ()
        ensures
            forall|a: Ipv6Kind, b: Ipv6Kind|
                #[trigger] a.wire_name() == #[trigger] b.wire_name() ==> a == b,
            forall|a: Ipv6Kind| Ipv6Kind::parsed(#[trigger] a.wire_name()) == Some(a),
    {
        reveal_strlit("Method");
        reveal_strlit("Address");
        reveal_strlit("PrefixLength");
        reveal_strlit("Gateway");
        reveal_strlit("Privacy");
        assert("Method"@.len() == 6 && "Method"@[0] == 'M');
        assert("Address"@.len() == 7 && "Address"@[0] == 'A');
        assert("PrefixLength"@.len() == 12 && "PrefixLength"@[0] == 'P');
        assert("Gateway"@.len() == 7 && "Gateway"@[0] == 'G');
        assert("Privacy"@.len() == 7 && "Privacy"@[0] == 'P');
    }
}

/// The mathematical content of an [`Ipv6`].
pub ghost struct Ipv6View {
    pub method: Option<Ipv6Method>,
    pub address: Option<Seq<char>>,
    pub prefix_length: Option<u8>,
    pub gateway: Option<Seq<char>>,
    pub privacy: Option<Ipv6Privacy>,
}

/// An IPv6 configuration. A field that the daemon left out, or sent in a
/// form that does not read, is `None`.
#[derive(Clone, Debug, PartialEq, Eq)]
pub struct Ipv6 {
    pub method: Option<Ipv6Method>,
    pub address: Option<String>,
    pub prefix_length: Option<u8>,
    pub gateway: Option<String>,
    pub privacy: Option<Ipv6Privacy>,
}

impl DeepView for Ipv6 {
    type V = Ipv6View;

    open spec fn deep_view(&self) -> Ipv6View {
        Ipv6View {
            method: self.method,
            address: self.address.deep_view(),
            prefix_length: self.prefix_length,
            gateway: self.gateway.deep_view(),
            privacy: self.privacy,
        }
    }
}

impl Composite for Ipv6 {
    open spec fn fields(read: Seq<(Seq<char>, Value)>) -> Ipv6View {
        Ipv6View {
            method: last_parsed(read, Ipv6Kind::Method.wire_name(), parsed_rule::<Ipv6Method>()),
            address: last_parsed(read, Ipv6Kind::Address.wire_name(), text_rule()),
            prefix_length: last_parsed(
                read,
                Ipv6Kind::PrefixLength.wire_name(),
                parsed_rule::<u8>(),
            ),
            gateway: last_parsed(read, Ipv6Kind::Gateway.wire_name(), text_rule()),
            privacy: last_parsed(read, Ipv6Kind::Privacy.wire_name(), parsed_rule::<Ipv6Privacy>()),
        }
    }

    fn from_elements(elements: &Vec<DynamicValue>) -> (decoded: Ipv6)
        ensures
            decoded.deep_view() == Ipv6::fields(pairs(elements.deep_view())),
    {
        let mut decoded = Ipv6 {
            method: None,
            address: None,
            prefix_length: None,
            gateway: None,
            privacy: None,
        };
        let mut walk = Pairs::new(elements);
        loop
            invariant_except_break
                walk.well_formed(),
                walk.source() == elements.deep_view(),
                decoded.deep_view() == Ipv6::fields(walk.seen()),
            ensures
                decoded.deep_view() == Ipv6::fields(pairs(elements.deep_view())),
            decreases pairs(elements.deep_view()).len() - walk.seen().len(),
        {
            let ghost seen = walk.seen();
            let (key, value) = match walk.next() {
                Some(pair) => pair,
                None => break,
            };
            proof {
                let pair = (key@, value.deep_view());
                Ipv6Kind::lemma_names_differ();
                assert(Ipv6Kind::Method.wire_name() == "Method"@);
                lemma_last_parsed_push(seen, pair, "Method"@, parsed_rule::<Ipv6Method>());
                assert(Ipv6Kind::Address.wire_name() == "Address"@);
                lemma_last_parsed_push(seen, pair, "Address"@, text_rule());
                assert(Ipv6Kind::PrefixLength.wire_name() == "PrefixLength"@);
                lemma_last_parsed_push(seen, pair, "PrefixLength"@, parsed_rule::<u8>());
                assert(Ipv6Kind::Gateway.wire_name() == "Gateway"@);
                lemma_last_parsed_push(seen, pair, "Gateway"@, text_rule());
                assert(Ipv6Kind::Privacy.wire_name() == "Privacy"@);
                lemma_last_parsed_push(seen, pair, "Privacy"@, parsed_rule::<Ipv6Privacy>());
            }
            match Ipv6Kind::from_str(key) {
                Some(Ipv6Kind::Method) => {
                    if let Some(text) = value.as_str() {
                        if let Some(method) = Ipv6Method::from_str(text) {
                            decoded.method = Some(method);
                        }
                    }
                },
                Some(Ipv6Kind::Address) => {
                    if let Some(text) = value.as_str() {
                        decoded.address = Some(text.to_owned());
                    }
                },
                Some(Ipv6Kind::PrefixLength) => {
                    if let Some(text) = value.as_str() {
                        if let Some(prefix_length) = u8::from_str(text) {
                            decoded.prefix_length = Some(prefix_length);
                        }
                    }
                },
                Some(Ipv6Kind::Gateway) => {
                    if let Some(text) = value.as_str() {
                        decoded.gateway = Some(text.to_owned());
                    }
                },
                Some(Ipv6Kind::Privacy) => {
                    if let Some(text) = value.as_str() {
                        if let Some(privacy) = Ipv6Privacy::from_str(text) {
                            decoded.privacy = Some(privacy);
                        }
                    }
                },
                None => {},
            }
        }
        decoded
    }
}

impl Ipv6 {
    /// One pair that does not read costs its own field and no other: a
    /// field of another name is as it was, and the pair's own field is
    /// `None` where no other pair has its name.
    pub proof fn lemma_malformed_pair(read: Seq<(Seq<char>, Value)>, at: int, bad: Value)
        requires
            0 <= at < read.len(),
        ensures
            ({
                let changed = read.update(at, (read[at].0, bad));
                let alone = forall|i: int|
                    0 <= i < read.len() && i != at ==> (#[trigger] read[i]).0 != read[at].0;
                &&& read[at].0 != "Method"@ ==> Ipv6::fields(changed).method
                    == Ipv6::fields(read).method
                &&& read[at].0 == "Method"@ && alone && parsed_rule::<Ipv6Method>()(bad) is None
                    ==> Ipv6::fields(changed).method is None
                &&& read[at].0 != "Address"@ ==> Ipv6::fields(changed).address
                    == Ipv6::fields(read).address
                &&& read[at].0 == "Address"@ && alone && text_rule()(bad) is None
                    ==> Ipv6::fields(changed).address is None
                &&& read[at].0 != "PrefixLength"@ ==> Ipv6::fields(changed).prefix_length
                    == Ipv6::fields(read).prefix_length
                &&& read[at].0 == "PrefixLength"@ && alone && parsed_rule::<u8>()(bad) is None
                    ==> Ipv6::fields(changed).prefix_length is None
                &&& read[at].0 != "Gateway"@ ==> Ipv6::fields(changed).gateway
                    == Ipv6::fields(read).gateway
                &&& read[at].0 == "Gateway"@ && alone && text_rule()(bad) is None
                    ==> Ipv6::fields(changed).gateway is None
                &&& read[at].0 != "Privacy"@ ==> Ipv6::fields(changed).privacy
                    == Ipv6::fields(read).privacy
                &&& read[at].0 == "Privacy"@ && alone && parsed_rule::<Ipv6Privacy>()(bad) is None
                    ==> Ipv6::fields(changed).privacy is None
            }),
    {
        let changed = read.update(at, (read[at].0, bad));
        let alone = forall|i: int|
            0 <= i < read.len() && i != at ==> (#[trigger] read[i]).0 != read[at].0;
        if read[at].0 != "Method"@ {
            lemma_last_parsed_other_name(read, at, bad, "Method"@, parsed_rule::<Ipv6Method>());
        } else if alone {
            assert forall|i: int|
                0 <= i < changed.len() && changed[i].0 == "Method"@ implies i == at by {
                if i != at {
                    assert(read[i].0 != read[at].0);
                }
            }
            lemma_last_parsed_single(changed, at, "Method"@, parsed_rule::<Ipv6Method>());
        }
        if read[at].0 != "Address"@ {
            lemma_last_parsed_other_name(read, at, bad, "Address"@, text_rule());
        } else if alone {
            assert forall|i: int|
                0 <= i < changed.len() && changed[i].0 == "Address"@ implies i == at by {
                if i != at {
                    assert(read[i].0 != read[at].0);
                }
            }
            lemma_last_parsed_single(changed, at, "Address"@, text_rule());
        }
        if read[at].0 != "PrefixLength"@ {
            lemma_last_parsed_other_name(read, at, bad, "PrefixLength"@, parsed_rule::<u8>());
        } else if alone {
            assert forall|i: int|
                0 <= i < changed.len() && changed[i].0 == "PrefixLength"@ implies i == at by {
                if i != at {
                    assert(read[i].0 != read[at].0);
                }
            }
            lemma_last_parsed_single(changed, at, "PrefixLength"@, parsed_rule::<u8>());
        }
        if read[at].0 != "Gateway"@ {
            lemma_last_parsed_other_name(read, at, bad, "Gateway"@, text_rule());
        } else if alone {
            assert forall|i: int|
                0 <= i < changed.len() && changed[i].0 == "Gateway"@ implies i == at by {
                if i != at {
                    assert(read[i].0 != read[at].0);
                }
            }
            lemma_last_parsed_single(changed, at, "Gateway"@, text_rule());
        }
        if read[at].0 != "Privacy"@ {
            lemma_last_parsed_other_name(read, at, bad, "Privacy"@, parsed_rule::<Ipv6Privacy>());
        } else if alone {
            assert forall|i: int|
                0 <= i < changed.len() && changed[i].0 == "Privacy"@ implies i == at by {
                if i != at {
                    assert(read[i].0 != read[at].0);
                }
            }
            lemma_last_parsed_single(changed, at, "Privacy"@, parsed_rule::<Ipv6Privacy>());
        }
    }
}

impl Ipv6View {
    /// The entries of the dictionary that says exactly what this value
    /// holds: one entry for each field that is not `None`.
    pub open spec fn entries(self) -> Seq<(Seq<char>, Value)> {
        let with_method = match self.method {
            Some(method) => Seq::<(Seq<char>, Value)>::empty().push(
                (Ipv6Kind::Method.wire_name(), Value::Str(method.wire_name())),
            ),
            None => Seq::<(Seq<char>, Value)>::empty(),
        };
        let with_address = match self.address {
            Some(address) => with_method.push((Ipv6Kind::Address.wire_name(), Value::Str(address))),
            None => with_method,
        };
        let with_prefix_length = match self.prefix_length {
            Some(prefix_length) => with_address.push(
                (Ipv6Kind::PrefixLength.wire_name(), Value::Str(decimal_text(prefix_length))),
            ),
            None => with_address,
        };
        let with_gateway = match self.gateway {
            Some(gateway) => with_prefix_length.push(
                (Ipv6Kind::Gateway.wire_name(), Value::Str(gateway)),
            ),
            None => with_prefix_length,
        };
        match self.privacy {
            Some(privacy) => with_gateway.push(
                (Ipv6Kind::Privacy.wire_name(), Value::Str(privacy.wire_name())),
            ),
            None => with_gateway,
        }
    }

    /// Decoding the entries of a value gives the value back.
    pub proof fn lemma_round_trip(self)
        ensures
            Ipv6::fields(self.entries()) == self,
    {
        Ipv6Kind::lemma_names_differ();
        Ipv6Method::lemma_names_differ();
        Ipv6Privacy::lemma_names_differ();
        let with_nothing = Seq::<(Seq<char>, Value)>::empty();
        let with_method = match self.method {
            Some(method) => with_nothing.push(
                (Ipv6Kind::Method.wire_name(), Value::Str(method.wire_name())),
            ),
            None => with_nothing,
        };
        if let Some(method) = self.method {
            let pair = (Ipv6Kind::Method.wire_name(), Value::Str(method.wire_name()));
            lemma_last_parsed_push(
                with_nothing,
                pair,
                Ipv6Kind::Method.wire_name(),
                parsed_rule::<Ipv6Method>(),
            );
            lemma_last_parsed_push(with_nothing, pair, Ipv6Kind::Address.wire_name(), text_rule());
            lemma_last_parsed_push(
                with_nothing,
                pair,
                Ipv6Kind::PrefixLength.wire_name(),
                parsed_rule::<u8>(),
            );
            lemma_last_parsed_push(with_nothing, pair, Ipv6Kind::Gateway.wire_name(), text_rule());
            lemma_last_parsed_push(
                with_nothing,
                pair,
                Ipv6Kind::Privacy.wire_name(),
                parsed_rule::<Ipv6Privacy>(),
            );
        }
        let with_address = match self.address {
            Some(address) => with_method.push((Ipv6Kind::Address.wire_name(), Value::Str(address))),
            None => with_method,
        };
        if let Some(address) = self.address {
            let pair = (Ipv6Kind::Address.wire_name(), Value::Str(address));
            lemma_last_parsed_push(
                with_method,
                pair,
                Ipv6Kind::Method.wire_name(),
                parsed_rule::<Ipv6Method>(),
            );
            lemma_last_parsed_push(with_method, pair, Ipv6Kind::Address.wire_name(), text_rule());
            lemma_last_parsed_push(
                with_method,
                pair,
                Ipv6Kind::PrefixLength.wire_name(),
                parsed_rule::<u8>(),
            );
            lemma_last_parsed_push(with_method, pair, Ipv6Kind::Gateway.wire_name(), text_rule());
            lemma_last_parsed_push(
                with_method,
                pair,
                Ipv6Kind::Privacy.wire_name(),
                parsed_rule::<Ipv6Privacy>(),
            );
        }
        let with_prefix_length = match self.prefix_length {
            Some(prefix_length) => with_address.push(
                (Ipv6Kind::PrefixLength.wire_name(), Value::Str(decimal_text(prefix_length))),
            ),
            None => with_address,
        };
        if let Some(prefix_length) = self.prefix_length {
            let pair = (
                Ipv6Kind::PrefixLength.wire_name(),
                Value::Str(decimal_text(prefix_length)),
            );
            lemma_decimal_round_trip(prefix_length);
            lemma_last_parsed_push(
                with_address,
                pair,
                Ipv6Kind::Method.wire_name(),
                parsed_rule::<Ipv6Method>(),
            );
            lemma_last_parsed_push(with_address, pair, Ipv6Kind::Address.wire_name(), text_rule());
            lemma_last_parsed_push(
                with_address,
                pair,
                Ipv6Kind::PrefixLength.wire_name(),
                parsed_rule::<u8>(),
            );
            lemma_last_parsed_push(with_address, pair, Ipv6Kind::Gateway.wire_name(), text_rule());
            lemma_last_parsed_push(
                with_address,
                pair,
                Ipv6Kind::Privacy.wire_name(),
                parsed_rule::<Ipv6Privacy>(),
            );
        }
        let with_gateway = match self.gateway {
            Some(gateway) => with_prefix_length.push(
                (Ipv6Kind::Gateway.wire_name(), Value::Str(gateway)),
            ),
            None => with_prefix_length,
        };
        if let Some(gateway) = self.gateway {
            let pair = (Ipv6Kind::Gateway.wire_name(), Value::Str(gateway));
            lemma_last_parsed_push(
                with_prefix_length,
                pair,
                Ipv6Kind::Method.wire_name(),
                parsed_rule::<Ipv6Method>(),
            );
            lemma_last_parsed_push(
                with_prefix_length,
                pair,
                Ipv6Kind::Address.wire_name(),
                text_rule(),
            );
            lemma_last_parsed_push(
                with_prefix_length,
                pair,
                Ipv6Kind::PrefixLength.wire_name(),
                parsed_rule::<u8>(),
            );
            lemma_last_parsed_push(
                with_prefix_length,
                pair,
                Ipv6Kind::Gateway.wire_name(),
                text_rule(),
            );
            lemma_last_parsed_push(
                with_prefix_length,
                pair,
                Ipv6Kind::Privacy.wire_name(),
                parsed_rule::<Ipv6Privacy>(),
            );
        }
        let with_privacy = match self.privacy {
            Some(privacy) => with_gateway.push(
                (Ipv6Kind::Privacy.wire_name(), Value::Str(privacy.wire_name())),
            ),
            None => with_gateway,
        };
        if let Some(privacy) = self.privacy {
            let pair = (Ipv6Kind::Privacy.wire_name(), Value::Str(privacy.wire_name()));
            lemma_last_parsed_push(
                with_gateway,
                pair,
                Ipv6Kind::Method.wire_name(),
                parsed_rule::<Ipv6Method>(),
            );
            lemma_last_parsed_push(with_gateway, pair, Ipv6Kind::Address.wire_name(), text_rule());
            lemma_last_parsed_push(
                with_gateway,
                pair,
                Ipv6Kind::PrefixLength.wire_name(),
                parsed_rule::<u8>(),
            );
            lemma_last_parsed_push(with_gateway, pair, Ipv6Kind::Gateway.wire_name(), text_rule());
            lemma_last_parsed_push(
                with_gateway,
                pair,
                Ipv6Kind::Privacy.wire_name(),
                parsed_rule::<Ipv6Privacy>(),
            );
        }
        assert(self.entries() == with_privacy);
    }
}

impl FromProperties for Ipv6 {
    /// The property must be there and be an array or a dictionary; what it
    /// holds is then decoded without fail.
    open spec fn extracted(properties: Map<Seq<char>, Value>, name: Seq<char>) -> Result<
        Ipv6View,
        PropertyErrorView,
    > {
        match elements_property(properties, name) {
            Ok(elements) => Ok(Ipv6::fields(pairs(elements))),
            Err(error) => Err(error),
        }
    }

    fn from_properties(properties: &PropertyMap, prop_name: &str) -> (result: Result<
        Ipv6,
        PropertyError,
    >)
        ensures
            outcome(result) == Self::extracted(properties.deep_view(), prop_name@),
    {
        match get_property_argiter(properties, prop_name) {
            Ok(elements) => Ok(Ipv6::from_elements(&elements)),
            Err(error) => Err(error),
        }
    }

    proof fn lemma_extracted_error(properties: Map<Seq<char>, Value>, name: Seq<char>) {
    }
}

impl ProxyKind {
    /// No two fields share a spelling, and each spelling reads as its own.
    pub proof fn lemma_names_differ()
        ensures
            forall|a: ProxyKind, b: ProxyKind|
                #[trigger] a.wire_name() == #[trigger] b.wire_name() ==> a == b,
            forall|a: ProxyKind| ProxyKind::parsed(#[trigger] a.wire_name()) == Some(a),
    {
        reveal_strlit("Method");
        reveal_strlit("Url");
        reveal_strlit("Servers");
        reveal_strlit("Excludes");
        assert("Method"@.len() == 6 && "Method"@[0] == 'M');
        assert("Url"@.len() == 3 && "Url"@[0] == 'U');
        assert("Servers"@.len() == 7 && "Servers"@[0] == 'S');
        assert("Excludes"@.len() == 8 && "Excludes"@[0] == 'E');
    }
}

/// The mathematical content of a [`Proxy`].
pub ghost struct ProxyView {
    pub method: Option<ProxyMethod>,
    pub url: Option<Seq<char>>,
    pub servers: Option<Seq<Seq<char>>>,
    pub excludes: Option<Seq<Seq<char>>>,
}

/// A proxy configuration. A field that the daemon left out, or sent in a
/// form that does not read, is `None`.
#[derive(Clone, Debug, PartialEq, Eq)]
pub struct Proxy {
    pub method: Option<ProxyMethod>,
    pub url: Option<String>,
    pub servers: Option<Vec<String>>,
    pub excludes: Option<Vec<String>>,
}

impl DeepView for Proxy {
    type V = ProxyView;

    open spec fn deep_view(&self) -> ProxyView {
        ProxyView {
            method: self.method,
            url: self.url.deep_view(),
            servers: self.servers.deep_view(),
            excludes: self.excludes.deep_view(),
        }
    }
}

impl Composite for Proxy {
    open spec fn fields(read: Seq<(Seq<char>, Value)>) -> ProxyView {
        ProxyView {
            method: last_parsed(read, ProxyKind::Method.wire_name(), parsed_rule::<ProxyMethod>()),
            url: last_parsed(read, ProxyKind::Url.wire_name(), text_rule()),
            servers: last_parsed(read, ProxyKind::Servers.wire_name(), text_list_rule()),
            excludes: last_parsed(read, ProxyKind::Excludes.wire_name(), text_list_rule()),
        }
    }

    fn from_elements(elements: &Vec<DynamicValue>) -> (decoded: Proxy)
        ensures
            decoded.deep_view() == Proxy::fields(pairs(elements.deep_view())),
    {
        let mut decoded = Proxy { method: None, url: None, servers: None, excludes: None };
        let mut walk = Pairs::new(elements);
        loop
            invariant_except_break
                walk.well_formed(),
                walk.source() == elements.deep_view(),
                decoded.deep_view() == Proxy::fields(walk.seen()),
            ensures
                decoded.deep_view() == Proxy::fields(pairs(elements.deep_view())),
            decreases pairs(elements.deep_view()).len() - walk.seen().len(),
        {
            let ghost seen = walk.seen();
            let (key, value) = match walk.next() {
                Some(pair) => pair,
                None => break,
            };
            proof {
                let pair = (key@, value.deep_view());
                ProxyKind::lemma_names_differ();
                assert(ProxyKind::Method.wire_name() == "Method"@);
                lemma_last_parsed_push(seen, pair, "Method"@, parsed_rule::<ProxyMethod>());
                assert(ProxyKind::Url.wire_name() == "Url"@);
                lemma_last_parsed_push(seen, pair, "Url"@, text_rule());
                assert(ProxyKind::Servers.wire_name() == "Servers"@);
                lemma_last_parsed_push(seen, pair, "Servers"@, text_list_rule());
                assert(ProxyKind::Excludes.wire_name() == "Excludes"@);
                lemma_last_parsed_push(seen, pair, "Excludes"@, text_list_rule());
            }
            match ProxyKind::from_str(key) {
                Some(ProxyKind::Method) => {
                    if let Some(text) = value.as_str() {
                        if let Some(method) = ProxyMethod::from_str(text) {
                            decoded.method = Some(method);
                        }
                    }
                },
                Some(ProxyKind::Url) => {
                    if let Some(text) = value.as_str() {
                        decoded.url = Some(text.to_owned());
                    }
                },
                Some(ProxyKind::Servers) => {
                    if let Some(servers) = Vec::<String>::cast(value) {
                        decoded.servers = Some(servers);
                    }
                },
                Some(ProxyKind::Excludes) => {
                    if let Some(excludes) = Vec::<String>::cast(value) {
                        decoded.excludes = Some(excludes);
                    }
                },
                None => {},
            }
        }
        decoded
    }
}

impl Proxy {
    /// One pair that does not read costs its own field and no other: a
    /// field of another name is as it was, and the pair's own field is
    /// `None` where no other pair has its name.
    pub proof fn lemma_malformed_pair(read: Seq<(Seq<char>, Value)>, at: int, bad: Value)
        requires
            0 <= at < read.len(),
        ensures
            ({
                let changed = read.update(at, (read[at].0, bad));
                let alone = forall|i: int|
                    0 <= i < read.len() && i != at ==> (#[trigger] read[i]).0 != read[at].0;
                &&& read[at].0 != "Method"@ ==> Proxy::fields(changed).method
                    == Proxy::fields(read).method
                &&& read[at].0 == "Method"@ && alone && parsed_rule::<ProxyMethod>()(bad) is None
                    ==> Proxy::fields(changed).method is None
                &&& read[at].0 != "Url"@ ==> Proxy::fields(changed).url
                    == Proxy::fields(read).url
                &&& read[at].0 == "Url"@ && alone && text_rule()(bad) is None
                    ==> Proxy::fields(changed).url is None
                &&& read[at].0 != "Servers"@ ==> Proxy::fields(changed).servers
                    == Proxy::fields(read).servers
                &&& read[at].0 == "Servers"@ && alone && text_list_rule()(bad) is None
                    ==> Proxy::fields(changed).servers is None
                &&& read[at].0 != "Excludes"@ ==> Proxy::fields(changed).excludes
                    == Proxy::fields(read).excludes
                &&& read[at].0 == "Excludes"@ && alone && text_list_rule()(bad) is None
                    ==> Proxy::fields(changed).excludes is None
            }),
    {
        let changed = read.update(at, (read[at].0, bad));
        let alone = forall|i: int|
            0 <= i < read.len() && i != at ==> (#[trigger] read[i]).0 != read[at].0;
        if read[at].0 != "Method"@ {
            lemma_last_parsed_other_name(read, at, bad, "Method"@, parsed_rule::<ProxyMethod>());
        } else if alone {
            assert forall|i: int|
                0 <= i < changed.len() && changed[i].0 == "Method"@ implies i == at by {
                if i != at {
                    assert(read[i].0 != read[at].0);
                }
            }
            lemma_last_parsed_single(changed, at, "Method"@, parsed_rule::<ProxyMethod>());
        }
        if read[at].0 != "Url"@ {
            lemma_last_parsed_other_name(read, at, bad, "Url"@, text_rule());
        } else if alone {
            assert forall|i: int|
                0 <= i < changed.len() && changed[i].0 == "Url"@ implies i == at by {
                if i != at {
                    assert(read[i].0 != read[at].0);
                }
            }
            lemma_last_parsed_single(changed, at, "Url"@, text_rule());
        }
        if read[at].0 != "Servers"@ {
            lemma_last_parsed_other_name(read, at, bad, "Servers"@, text_list_rule());
        } else if alone {
            assert forall|i: int|
                0 <= i < changed.len() && changed[i].0 == "Servers"@ implies i == at by {
                if i != at {
                    assert(read[i].0 != read[at].0);
                }
            }
            lemma_last_parsed_single(changed, at, "Servers"@, text_list_rule());
        }
        if read[at].0 != "Excludes"@ {
            lemma_last_parsed_other_name(read, at, bad, "Excludes"@, text_list_rule());
        } else if alone {
            assert forall|i: int|
                0 <= i < changed.len() && changed[i].0 == "Excludes"@ implies i == at by {
                if i != at {
                    assert(read[i].0 != read[at].0);
                }
            }
            lemma_last_parsed_single(changed, at, "Excludes"@, text_list_rule());
        }
    }
}

impl ProxyView {
    /// The entries of the dictionary that says exactly what this value
    /// holds: one entry for each field that is not `None`.
    pub open spec fn entries(self) -> Seq<(Seq<char>, Value)> {
        let with_method = match self.method {
            Some(method) => Seq::<(Seq<char>, Value)>::empty().push(
                (ProxyKind::Method.wire_name(), Value::Str(method.wire_name())),
            ),
            None => Seq::<(Seq<char>, Value)>::empty(),
        };
        let with_url = match self.url {
            Some(url) => with_method.push((ProxyKind::Url.wire_name(), Value::Str(url))),
            None => with_method,
        };
        let with_servers = match self.servers {
            Some(servers) => with_url.push((ProxyKind::Servers.wire_name(), text_list(servers))),
            None => with_url,
        };
        match self.excludes {
            Some(excludes) => with_servers.push(
                (ProxyKind::Excludes.wire_name(), text_list(excludes)),
            ),
            None => with_servers,
        }
    }

    /// Decoding the entries of a value gives the value back.
    pub proof fn lemma_round_trip(self)
        ensures
            Proxy::fields(self.entries()) == self,
    {
        ProxyKind::lemma_names_differ();
        ProxyMethod::lemma_names_differ();
        let with_nothing = Seq::<(Seq<char>, Value)>::empty();
        let with_method = match self.method {
            Some(method) => with_nothing.push(
                (ProxyKind::Method.wire_name(), Value::Str(method.wire_name())),
            ),
            None => with_nothing,
        };
        if let Some(method) = self.method {
            let pair = (ProxyKind::Method.wire_name(), Value::Str(method.wire_name()));
            lemma_last_parsed_push(
                with_nothing,
                pair,
                ProxyKind::Method.wire_name(),
                parsed_rule::<ProxyMethod>(),
            );
            lemma_last_parsed_push(with_nothing, pair, ProxyKind::Url.wire_name(), text_rule());
            lemma_last_parsed_push(
                with_nothing,
                pair,
                ProxyKind::Servers.wire_name(),
                text_list_rule(),
            );
            lemma_last_parsed_push(
                with_nothing,
                pair,
                ProxyKind::Excludes.wire_name(),
                text_list_rule(),
            );
        }
        let with_url = match self.url {
            Some(url) => with_method.push((ProxyKind::Url.wire_name(), Value::Str(url))),
            None => with_method,
        };
        if let Some(url) = self.url {
            let pair = (ProxyKind::Url.wire_name(), Value::Str(url));
            lemma_last_parsed_push(
                with_method,
                pair,
                ProxyKind::Method.wire_name(),
                parsed_rule::<ProxyMethod>(),
            );
            lemma_last_parsed_push(with_method, pair, ProxyKind::Url.wire_name(), text_rule());
            lemma_last_parsed_push(
                with_method,
                pair,
                ProxyKind::Servers.wire_name(),
                text_list_rule(),
            );
            lemma_last_parsed_push(
                with_method,
                pair,
                ProxyKind::Excludes.wire_name(),
                text_list_rule(),
            );
        }
        let with_servers = match self.servers {
            Some(servers) => with_url.push((ProxyKind::Servers.wire_name(), text_list(servers))),
            None => with_url,
        };
        if let Some(servers) = self.servers {
            let pair = (ProxyKind::Servers.wire_name(), text_list(servers));
            lemma_text_list_cast(servers);
            lemma_last_parsed_push(
                with_url,
                pair,
                ProxyKind::Method.wire_name(),
                parsed_rule::<ProxyMethod>(),
            );
            lemma_last_parsed_push(with_url, pair, ProxyKind::Url.wire_name(), text_rule());
            lemma_last_parsed_push(
                with_url,
                pair,
                ProxyKind::Servers.wire_name(),
                text_list_rule(),
            );
            lemma_last_parsed_push(
                with_url,
                pair,
                ProxyKind::Excludes.wire_name(),
                text_list_rule(),
            );
        }
        let with_excludes = match self.excludes {
            Some(excludes) => with_servers.push(
                (ProxyKind::Excludes.wire_name(), text_list(excludes)),
            ),
            None => with_servers,
        };
        if let Some(excludes) = self.excludes {
            let pair = (ProxyKind::Excludes.wire_name(), text_list(excludes));
            lemma_text_list_cast(excludes);
            lemma_last_parsed_push(
                with_servers,
                pair,
                ProxyKind::Method.wire_name(),
                parsed_rule::<ProxyMethod>(),
            );
            lemma_last_parsed_push(with_servers, pair, ProxyKind::Url.wire_name(), text_rule());
            lemma_last_parsed_push(
                with_servers,
                pair,
                ProxyKind::Servers.wire_name(),
                text_list_rule(),
            );
            lemma_last_parsed_push(
                with_servers,
                pair,
                ProxyKind::Excludes.wire_name(),
                text_list_rule(),
            );
        }
        assert(self.entries() == with_excludes);
    }
}

impl FromProperties for Proxy {
    /// The property must be there and be an array or a dictionary; what it
    /// holds is then decoded without fail.
    open spec fn extracted(properties: Map<Seq<char>, Value>, name: Seq<char>) -> Result<
        ProxyView,
        PropertyErrorView,
    > {
        match elements_property(properties, name) {
            Ok(elements) => Ok(Proxy::fields(pairs(elements))),
            Err(error) => Err(error),
        }
    }

    fn from_properties(properties: &PropertyMap, prop_name: &str) -> (result: Result<
        Proxy,
        PropertyError,
    >)
        ensures
            outcome(result) == Self::extracted(properties.deep_view(), prop_name@),
    {
        match get_property_argiter(properties, prop_name) {
            Ok(elements) => Ok(Proxy::from_elements(&elements)),
            Err(error) => Err(error),
        }
    }

    proof fn lemma_extracted_error(properties: Map<Seq<char>, Value>, name: Seq<char>) {
    }
}

impl EthernetKind {
    /// No two fields share a spelling, and each spelling reads as its own.
    pub proof fn lemma_names_differ()
        ensures
            forall|a: EthernetKind, b: EthernetKind|
                #[trigger] a.wire_name() == #[trigger] b.wire_name() ==> a == b,
            forall|a: EthernetKind| EthernetKind::parsed(#[trigger] a.wire_name()) == Some(a),
    {
        reveal_strlit("Method");
        reveal_strlit("Interface");
        reveal_strlit("Address");
        reveal_strlit("MTU");
        assert("Method"@.len() == 6 && "Method"@[0] == 'M');
        assert("Interface"@.len() == 9 && "Interface"@[0] == 'I');
        assert("Address"@.len() == 7 && "Address"@[0] == 'A');
        assert("MTU"@.len() == 3 && "MTU"@[0] == 'M');
    }
}

/// The mathematical content of an [`Ethernet`].
pub ghost struct EthernetView {
    pub method: Option<EthernetMethod>,
    pub interface: Option<Seq<char>>,
    pub address: Option<Seq<char>>,
    pub mtu: Option<u16>,
}

/// An Ethernet configuration. A field that the daemon left out, or sent in
/// a form that does not read, is `None`.
#[derive(Clone, Debug, PartialEq, Eq)]
pub struct Ethernet {
    pub method: Option<EthernetMethod>,
    pub interface: Option<String>,
    pub address: Option<String>,
    pub mtu: Option<u16>,
}

impl DeepView for Ethernet {
    type V = EthernetView;

    open spec fn deep_view(&self) -> EthernetView {
        EthernetView {
            method: self.method,
            interface: self.interface.deep_view(),
            address: self.address.deep_view(),
            mtu: self.mtu,
        }
    }
}

impl Composite for Ethernet {
    open spec fn fields(read: Seq<(Seq<char>, Value)>) -> EthernetView {
        EthernetView {
            method: last_parsed(
                read,
                EthernetKind::Method.wire_name(),
                parsed_rule::<EthernetMethod>(),
            ),
            interface: last_parsed(read, EthernetKind::Interface.wire_name(), text_rule()),
            address: last_parsed(read, EthernetKind::Address.wire_name(), text_rule()),
            mtu: last_parsed(read, EthernetKind::Mtu.wire_name(), sixteen_bit_rule()),
        }
    }

    fn from_elements(elements: &Vec<DynamicValue>) -> (decoded: Ethernet)
        ensures
            decoded.deep_view() == Ethernet::fields(pairs(elements.deep_view())),
    {
        let mut decoded = Ethernet { method: None, interface: None, address: None, mtu: None };
        let mut walk = Pairs::new(elements);
        loop
            invariant_except_break
                walk.well_formed(),
                walk.source() == elements.deep_view(),
                decoded.deep_view() == Ethernet::fields(walk.seen()),
            ensures
                decoded.deep_view() == Ethernet::fields(pairs(elements.deep_view())),
            decreases pairs(elements.deep_view()).len() - walk.seen().len(),
        {
            let ghost seen = walk.seen();
            let (key, value) = match walk.next() {
                Some(pair) => pair,
                None => break,
            };
            proof {
                let pair = (key@, value.deep_view());
                EthernetKind::lemma_names_differ();
                assert(EthernetKind::Method.wire_name() == "Method"@);
                lemma_last_parsed_push(seen, pair, "Method"@, parsed_rule::<EthernetMethod>());
                assert(EthernetKind::Interface.wire_name() == "Interface"@);
                lemma_last_parsed_push(seen, pair, "Interface"@, text_rule());
                assert(EthernetKind::Address.wire_name() == "Address"@);
                lemma_last_parsed_push(seen, pair, "Address"@, text_rule());
                assert(EthernetKind::Mtu.wire_name() == "MTU"@);
                lemma_last_parsed_push(seen, pair, "MTU"@, sixteen_bit_rule());
            }
            match EthernetKind::from_str(key) {
                Some(EthernetKind::Method) => {
                    if let Some(text) = value.as_str() {
                        if let Some(method) = EthernetMethod::from_str(text) {
                            decoded.method = Some(method);
                        }
                    }
                },
                Some(EthernetKind::Interface) => {
                    if let Some(text) = value.as_str() {
                        decoded.interface = Some(text.to_owned());
                    }
                },
                Some(EthernetKind::Address) => {
                    if let Some(text) = value.as_str() {
                        decoded.address = Some(text.to_owned());
                    }
                },
                Some(EthernetKind::Mtu) => {
                    if let Some(number) = value.as_u64() {
                        if number <= 0xffff {
                            decoded.mtu = Some(number as u16);
                        }
                    }
                },
                None => {},
            }
        }
        decoded
    }
}

impl Ethernet {
    /// One pair that does not read costs its own field and no other: a
    /// field of another name is as it was, and the pair's own field is
    /// `None` where no other pair has its name.
    pub proof fn lemma_malformed_pair(read: Seq<(Seq<char>, Value)>, at: int, bad: Value)
        requires
            0 <= at < read.len(),
        ensures
            ({
                let changed = read.update(at, (read[at].0, bad));
                let alone = forall|i: int|
                    0 <= i < read.len() && i != at ==> (#[trigger] read[i]).0 != read[at].0;
                &&& read[at].0 != "Method"@ ==> Ethernet::fields(changed).method
                    == Ethernet::fields(read).method
                &&& read[at].0 == "Method"@ && alone && parsed_rule::<EthernetMethod>()(bad) is None
                    ==> Ethernet::fields(changed).method is None
                &&& read[at].0 != "Interface"@ ==> Ethernet::fields(changed).interface
                    == Ethernet::fields(read).interface
                &&& read[at].0 == "Interface"@ && alone && text_rule()(bad) is None
                    ==> Ethernet::fields(changed).interface is None
                &&& read[at].0 != "Address"@ ==> Ethernet::fields(changed).address
                    == Ethernet::fields(read).address
                &&& read[at].0 == "Address"@ && alone && text_rule()(bad) is None
                    ==> Ethernet::fields(changed).address is None
                &&& read[at].0 != "MTU"@ ==> Ethernet::fields(changed).mtu
                    == Ethernet::fields(read).mtu
                &&& read[at].0 == "MTU"@ && alone && sixteen_bit_rule()(bad) is None
                    ==> Ethernet::fields(changed).mtu is None
            }),
    {
        let changed = read.update(at, (read[at].0, bad));
        let alone = forall|i: int|
            0 <= i < read.len() && i != at ==> (#[trigger] read[i]).0 != read[at].0;
        if read[at].0 != "Method"@ {
            lemma_last_parsed_other_name(read, at, bad, "Method"@, parsed_rule::<EthernetMethod>());
        } else if alone {
            assert forall|i: int|
                0 <= i < changed.len() && changed[i].0 == "Method"@ implies i == at by {
                if i != at {
                    assert(read[i].0 != read[at].0);
                }
            }
            lemma_last_parsed_single(changed, at, "Method"@, parsed_rule::<EthernetMethod>());
        }
        if read[at].0 != "Interface"@ {
            lemma_last_parsed_other_name(read, at, bad, "Interface"@, text_rule());
        } else if alone {
            assert forall|i: int|
                0 <= i < changed.len() && changed[i].0 == "Interface"@ implies i == at by {
                if i != at {
                    assert(read[i].0 != read[at].0);
                }
            }
            lemma_last_parsed_single(changed, at, "Interface"@, text_rule());
        }
        if read[at].0 != "Address"@ {
            lemma_last_parsed_other_name(read, at, bad, "Address"@, text_rule());
        } else if alone {
            assert forall|i: int|
                0 <= i < changed.len() && changed[i].0 == "Address"@ implies i == at by {
                if i != at {
                    assert(read[i].0 != read[at].0);
                }
            }
            lemma_last_parsed_single(changed, at, "Address"@, text_rule());
        }
        if read[at].0 != "MTU"@ {
            lemma_last_parsed_other_name(read, at, bad, "MTU"@, sixteen_bit_rule());
        } else if alone {
            assert forall|i: int|
                0 <= i < changed.len() && changed[i].0 == "MTU"@ implies i == at by {
                if i != at {
                    assert(read[i].0 != read[at].0);
                }
            }
            lemma_last_parsed_single(changed, at, "MTU"@, sixteen_bit_rule());
        }
    }
}

impl EthernetView {
    /// The entries of the dictionary that says exactly what this value
    /// holds: one entry for each field that is not `None`.
    pub open spec fn entries(self) -> Seq<(Seq<char>, Value)> {
        let with_method = match self.method {
            Some(method) => Seq::<(Seq<char>, Value)>::empty().push(
                (EthernetKind::Method.wire_name(), Value::Str(method.wire_name())),
            ),
            None => Seq::<(Seq<char>, Value)>::empty(),
        };
        let with_interface = match self.interface {
            Some(interface) => with_method.push(
                (EthernetKind::Interface.wire_name(), Value::Str(interface)),
            ),
            None => with_method,
        };
        let with_address = match self.address {
            Some(address) => with_interface.push(
                (EthernetKind::Address.wire_name(), Value::Str(address)),
            ),
            None => with_interface,
        };
        match self.mtu {
            Some(mtu) => with_address.push((EthernetKind::Mtu.wire_name(), Value::U16(mtu))),
            None => with_address,
        }
    }

    /// Decoding the entries of a value gives the value back.
    pub proof fn lemma_round_trip(self)
        ensures
            Ethernet::fields(self.entries()) == self,
    {
        EthernetKind::lemma_names_differ();
        EthernetMethod::lemma_names_differ();
        let with_nothing = Seq::<(Seq<char>, Value)>::empty();
        let with_method = match self.method {
            Some(method) => with_nothing.push(
                (EthernetKind::Method.wire_name(), Value::Str(method.wire_name())),
            ),
            None => with_nothing,
        };
        if let Some(method) = self.method {
            let pair = (EthernetKind::Method.wire_name(), Value::Str(method.wire_name()));
            lemma_last_parsed_push(
                with_nothing,
                pair,
                EthernetKind::Method.wire_name(),
                parsed_rule::<EthernetMethod>(),
            );
            lemma_last_parsed_push(
                with_nothing,
                pair,
                EthernetKind::Interface.wire_name(),
                text_rule(),
            );
            lemma_last_parsed_push(
                with_nothing,
                pair,
                EthernetKind::Address.wire_name(),
                text_rule(),
            );
            lemma_last_parsed_push(
                with_nothing,
                pair,
                EthernetKind::Mtu.wire_name(),
                sixteen_bit_rule(),
            );
        }
        let with_interface = match self.interface {
            Some(interface) => with_method.push(
                (EthernetKind::Interface.wire_name(), Value::Str(interface)),
            ),
            None => with_method,
        };
        if let Some(interface) = self.interface {
            let pair = (EthernetKind::Interface.wire_name(), Value::Str(interface));
            lemma_last_parsed_push(
                with_method,
                pair,
                EthernetKind::Method.wire_name(),
                parsed_rule::<EthernetMethod>(),
            );
            lemma_last_parsed_push(
                with_method,
                pair,
                EthernetKind::Interface.wire_name(),
                text_rule(),
            );
            lemma_last_parsed_push(
                with_method,
                pair,
                EthernetKind::Address.wire_name(),
                text_rule(),
            );
            lemma_last_parsed_push(
                with_method,
                pair,
                EthernetKind::Mtu.wire_name(),
                sixteen_bit_rule(),
            );
        }
        let with_address = match self.address {
            Some(address) => with_interface.push(
                (EthernetKind::Address.wire_name(), Value::Str(address)),
            ),
            None => with_interface,
        };
        if let Some(address) = self.address {
            let pair = (EthernetKind::Address.wire_name(), Value::Str(address));
            lemma_last_parsed_push(
                with_interface,
                pair,
                EthernetKind::Method.wire_name(),
                parsed_rule::<EthernetMethod>(),
            );
            lemma_last_parsed_push(
                with_interface,
                pair,
                EthernetKind::Interface.wire_name(),
                text_rule(),
            );
            lemma_last_parsed_push(
                with_interface,
                pair,
                EthernetKind::Address.wire_name(),
                text_rule(),
            );
            lemma_last_parsed_push(
                with_interface,
                pair,
                EthernetKind::Mtu.wire_name(),
                sixteen_bit_rule(),
            );
        }
        let with_mtu = match self.mtu {
            Some(mtu) => with_address.push((EthernetKind::Mtu.wire_name(), Value::U16(mtu))),
            None => with_address,
        };
        if let Some(mtu) = self.mtu {
            let pair = (EthernetKind::Mtu.wire_name(), Value::U16(mtu));
            assert(sixteen_bit_rule()(pair.1) == Some(mtu));
            lemma_last_parsed_push(
                with_address,
                pair,
                EthernetKind::Method.wire_name(),
                parsed_rule::<EthernetMethod>(),
            );
            lemma_last_parsed_push(
                with_address,
                pair,
                EthernetKind::Interface.wire_name(),
                text_rule(),
            );
            lemma_last_parsed_push(
                with_address,
                pair,
                EthernetKind::Address.wire_name(),
                text_rule(),
            );
            lemma_last_parsed_push(
                with_address,
                pair,
                EthernetKind::Mtu.wire_name(),
                sixteen_bit_rule(),
            );
        }
        assert(self.entries() == with_mtu);
    }
}

impl Ethernet {
    /// An MTU that is there is the very number that a pair named `MTU`
    /// holds: nothing is cut off a number, and a number above 65535 gives
    /// no MTU.
    pub proof fn lemma_mtu_is_exact(read: Seq<(Seq<char>, Value)>)
        ensures
            Ethernet::fields(read).mtu matches Some(mtu) ==> exists|i: int|
                0 <= i < read.len() && read[i].0 == "MTU"@ && (#[trigger] read[i].1).unsigned()
                    == Some(mtu as u64),
    {
        lemma_last_parsed_some(read, "MTU"@, sixteen_bit_rule());
        if let Some(mtu) = Ethernet::fields(read).mtu {
            let i = choose|i: int|
                0 <= i < read.len() && read[i].0 == "MTU"@ && sixteen_bit_rule()(
                    #[trigger] read[i].1,
                ) == Some(mtu);
            assert(read[i].1.unsigned() == Some(mtu as u64));
        }
    }
}

impl FromProperties for Ethernet {
    /// The property must be there and be an array or a dictionary; what it
    /// holds is then decoded without fail.
    open spec fn extracted(properties: Map<Seq<char>, Value>, name: Seq<char>) -> Result<
        EthernetView,
        PropertyErrorView,
    > {
        match elements_property(properties, name) {
            Ok(elements) => Ok(Ethernet::fields(pairs(elements))),
            Err(error) => Err(error),
        }
    }

    fn from_properties(properties: &PropertyMap, prop_name: &str) -> (result: Result<
        Ethernet,
        PropertyError,
    >)
        ensures
            outcome(result) == Self::extracted(properties.deep_view(), prop_name@),
    {
        match get_property_argiter(properties, prop_name) {
            Ok(elements) => Ok(Ethernet::from_elements(&elements)),
            Err(error) => Err(error),
        }
    }

    proof fn lemma_extracted_error(properties: Map<Seq<char>, Value>, name: Seq<char>) {
    }
}

impl PropertyKind {
    /// No two properties share a spelling, and each spelling reads as its own.
    pub proof fn lemma_names_differ()
        ensures
            forall|a: PropertyKind, b: PropertyKind|
                #[trigger] a.wire_name() == #[trigger] b.wire_name() ==> a == b,
            forall|a: PropertyKind| PropertyKind::parsed(#[trigger] a.wire_name()) == Some(a),
    {
        reveal_strlit("State");
        reveal_strlit("Error");
        reveal_strlit("Name");
        reveal_strlit("Type");
        reveal_strlit("Security");
        reveal_strlit("Strength");
        reveal_strlit("Favorite");
        reveal_strlit("Immutable");
        reveal_strlit("AutoConnect");
        reveal_strlit("Roaming");
        reveal_strlit("Nameservers");
        reveal_strlit("Nameservers.Configuration");
        reveal_strlit("Timeservers");
        reveal_strlit("Timeservers.Configuration");
        reveal_strlit("Domains");
        reveal_strlit("Domains.Configuration");
        reveal_strlit("IPv4");
        reveal_strlit("IPv4.Configuration");
        reveal_strlit("IPv6");
        reveal_strlit("IPv6.Configuration");
        reveal_strlit("Proxy");
        reveal_strlit("Proxy.Configuration");
        reveal_strlit("Provider");
        reveal_strlit("Ethernet");
        reveal_strlit("mDNS");
        reveal_strlit("mDNS.Configuration");
        assert("State"@.len() == 5);
        assert("Error"@.len() == 5);
        assert("Name"@.len() == 4);
        assert("Type"@.len() == 4);
        assert("Security"@.len() == 8);
        assert("Strength"@.len() == 8);
        assert("Favorite"@.len() == 8);
        assert("Immutable"@.len() == 9);
        assert("AutoConnect"@.len() == 11);
        assert("Roaming"@.len() == 7);
        assert("Nameservers"@.len() == 11);
        assert("Nameservers.Configuration"@.len() == 25);
        assert("Timeservers"@.len() == 11);
        assert("Timeservers.Configuration"@.len() == 25);
        assert("Domains"@.len() == 7);
        assert("Domains.Configuration"@.len() == 21);
        assert("IPv4"@.len() == 4);
        assert("IPv4.Configuration"@.len() == 18);
        assert("IPv6"@.len() == 4);
        assert("IPv6.Configuration"@.len() == 18);
        assert("Proxy"@.len() == 5);
        assert("Proxy.Configuration"@.len() == 19);
        assert("Provider"@.len() == 8);
        assert("Ethernet"@.len() == 8);
        assert("mDNS"@.len() == 4);
        assert("mDNS.Configuration"@.len() == 18);
        assert("State"@[0] == 'S');
        assert("Error"@[0] == 'E');
        assert("Proxy"@[0] == 'P');
        assert("Name"@[0] == 'N');
        assert("Type"@[0] == 'T');
        assert("IPv4"@[0] == 'I');
        assert("IPv6"@[0] == 'I');
        assert("mDNS"@[0] == 'm');
        assert("Security"@[1] == 'e');
        assert("Strength"@[1] == 't');
        assert("Security"@[0] == 'S');
        assert("Favorite"@[0] == 'F');
        assert("Provider"@[0] == 'P');
        assert("Ethernet"@[0] == 'E');
        assert("Strength"@[0] == 'S');
        assert("AutoConnect"@[0] == 'A');
        assert("Nameservers"@[0] == 'N');
        assert("Timeservers"@[0] == 'T');
        assert("Roaming"@[0] == 'R');
        assert("Domains"@[0] == 'D');
        assert("Nameservers.Configuration"@[0] == 'N');
        assert("Timeservers.Configuration"@[0] == 'T');
        assert("IPv4"@[3] == '4');
        assert("IPv6"@[3] == '6');
        assert("IPv4.Configuration"@[3] == '4');
        assert("IPv6.Configuration"@[3] == '6');
        assert("IPv4.Configuration"@[0] == 'I');
        assert("mDNS.Configuration"@[0] == 'm');
        assert("IPv6.Configuration"@[0] == 'I');
    }
}

impl FromProperties for State {
    open spec fn extracted(properties: Map<Seq<char>, Value>, name: Seq<char>) -> Result<
        State,
        PropertyErrorView,
    > {
        parsed_property::<State>(properties, name)
    }

    fn from_properties(properties: &PropertyMap, prop_name: &str) -> (result: Result<
        State,
        PropertyError,
    >)
        ensures
            outcome(result) == Self::extracted(properties.deep_view(), prop_name@),
    {
        get_property_fromstr::<State>(properties, prop_name)
    }

    proof fn lemma_extracted_error(properties: Map<Seq<char>, Value>, name: Seq<char>) {
    }
}

impl FromProperties for Error {
    open spec fn extracted(properties: Map<Seq<char>, Value>, name: Seq<char>) -> Result<
        Error,
        PropertyErrorView,
    > {
        parsed_property::<Error>(properties, name)
    }

    fn from_properties(properties: &PropertyMap, prop_name: &str) -> (result: Result<
        Error,
        PropertyError,
    >)
        ensures
            outcome(result) == Self::extracted(properties.deep_view(), prop_name@),
    {
        get_property_fromstr::<Error>(properties, prop_name)
    }

    proof fn lemma_extracted_error(properties: Map<Seq<char>, Value>, name: Seq<char>) {
    }
}

impl FromProperties for Type {
    open spec fn extracted(properties: Map<Seq<char>, Value>, name: Seq<char>) -> Result<
        TypeView,
        PropertyErrorView,
    > {
        parsed_property::<Type>(properties, name)
    }

    fn from_properties(properties: &PropertyMap, prop_name: &str) -> (result: Result<
        Type,
        PropertyError,
    >)
        ensures
            outcome(result) == Self::extracted(properties.deep_view(), prop_name@),
    {
        get_property_fromstr::<Type>(properties, prop_name)
    }

    proof fn lemma_extracted_error(properties: Map<Seq<char>, Value>, name: Seq<char>) {
    }
}

/// The mathematical content of a service's [`Properties`].
pub ghost struct PropertiesView {
    pub state: State,
    pub error: Option<Error>,
    pub name: Option<Seq<char>>,
    pub type_: Option<TypeView>,
    pub security: Option<Seq<Seq<char>>>,
    pub strength: Option<u8>,
    pub favorite: bool,
    pub immutable: bool,
    pub autoconnect: bool,
    pub roaming: Option<bool>,
    pub nameservers: Seq<Seq<char>>,
    pub nameservers_config: Seq<Seq<char>>,
    pub timeservers: Seq<Seq<char>>,
    pub timeservers_config: Seq<Seq<char>>,
    pub domains: Seq<Seq<char>>,
    pub domains_config: Seq<Seq<char>>,
    pub ipv4: Ipv4View,
    pub ipv4_config: Ipv4View,
    pub ipv6: Ipv6View,
    pub ipv6_config: Ipv6View,
    pub proxy: ProxyView,
    pub proxy_config: ProxyView,
    pub provider: ProviderView,
    pub ethernet: EthernetView,
    pub mdns: Option<bool>,
    pub mdns_config: Option<bool>,
}

/// What the daemon says of a service.
#[derive(Clone, Debug)]
pub struct Properties {
    /// The connection state.
    pub state: State,
    /// Why the service failed; it means something only in the state `Failure`.
    pub error: Option<Error>,
    /// The name of the service.
    pub name: Option<String>,
    /// The kind of service.
    pub type_: Option<Type>,
    /// The security methods that the service offers.
    pub security: Option<Vec<String>>,
    /// The signal strength, from 0 to 100.
    pub strength: Option<u8>,
    /// Whether a user chose the service, or it connected before.
    pub favorite: bool,
    /// Whether the service is configured from outside and cannot be changed.
    pub immutable: bool,
    /// Whether the service connects by itself where no other is connected.
    pub autoconnect: bool,
    /// Whether the service is roaming.
    pub roaming: Option<bool>,
    /// The name servers in use.
    pub nameservers: Vec<String>,
    /// The name servers that were set by hand.
    pub nameservers_config: Vec<String>,
    /// The time servers in use.
    pub timeservers: Vec<String>,
    /// The time servers that were set by hand.
    pub timeservers_config: Vec<String>,
    /// The search domains in use.
    pub domains: Vec<String>,
    /// The search domains that were set by hand.
    pub domains_config: Vec<String>,
    /// The IPv4 configuration in use.
    pub ipv4: Ipv4,
    /// The IPv4 configuration that was set by hand.
    pub ipv4_config: Ipv4,
    /// The IPv6 configuration in use.
    pub ipv6: Ipv6,
    /// The IPv6 configuration that was set by hand.
    pub ipv6_config: Ipv6,
    /// The proxy configuration in use.
    pub proxy: Proxy,
    /// The proxy configuration that was set by hand.
    pub proxy_config: Proxy,
    /// The VPN provider.
    pub provider: Provider,
    /// The Ethernet configuration.
    pub ethernet: Ethernet,
    /// Whether mDNS is in use.
    pub mdns: Option<bool>,
    /// Whether mDNS was set by hand.
    pub mdns_config: Option<bool>,
}

impl DeepView for Properties {
    type V = PropertiesView;

    open spec fn deep_view(&self) -> PropertiesView {
        PropertiesView {
            state: self.state,
            error: self.error,
            name: self.name.deep_view(),
            type_: self.type_.deep_view(),
            security: self.security.deep_view(),
            strength: self.strength,
            favorite: self.favorite,
            immutable: self.immutable,
            autoconnect: self.autoconnect,
            roaming: self.roaming,
            nameservers: self.nameservers.deep_view(),
            nameservers_config: self.nameservers_config.deep_view(),
            timeservers: self.timeservers.deep_view(),
            timeservers_config: self.timeservers_config.deep_view(),
            domains: self.domains.deep_view(),
            domains_config: self.domains_config.deep_view(),
            ipv4: self.ipv4.deep_view(),
            ipv4_config: self.ipv4_config.deep_view(),
            ipv6: self.ipv6.deep_view(),
            ipv6_config: self.ipv6_config.deep_view(),
            proxy: self.proxy.deep_view(),
            proxy_config: self.proxy_config.deep_view(),
            provider: self.provider.deep_view(),
            ethernet: self.ethernet.deep_view(),
            mdns: self.mdns,
            mdns_config: self.mdns_config,
        }
    }
}

impl Properties {
    /// What each step of the assembly leaves, in the order of the steps:
    /// first the properties that must be there, then those that may be
    /// missing. The composite properties are read last and leave no error.
    pub open spec fn failures(properties: Map<Seq<char>, Value>) -> Seq<Option<PropertyErrorView>> {
        seq![
            failure(State::extracted(properties, PropertyKind::State.wire_name())),
            failure(bool::extracted(properties, PropertyKind::Favorite.wire_name())),
            failure(bool::extracted(properties, PropertyKind::Immutable.wire_name())),
            failure(bool::extracted(properties, PropertyKind::AutoConnect.wire_name())),
            failure(Vec::<String>::extracted(properties, PropertyKind::Nameservers.wire_name())),
            failure(
                Vec::<String>::extracted(
                    properties,
                    PropertyKind::NameserversConfiguration.wire_name(),
                ),
            ),
            failure(Vec::<String>::extracted(properties, PropertyKind::Timeservers.wire_name())),
            failure(
                Vec::<String>::extracted(
                    properties,
                    PropertyKind::TimeserversConfiguration.wire_name(),
                ),
            ),
            failure(Vec::<String>::extracted(properties, PropertyKind::Domains.wire_name())),
            failure(
                Vec::<String>::extracted(
                    properties,
                    PropertyKind::DomainsConfiguration.wire_name(),
                ),
            ),
            failure(Option::<Error>::extracted(properties, PropertyKind::Error.wire_name())),
            failure(Option::<String>::extracted(properties, PropertyKind::Name.wire_name())),
            failure(Option::<Type>::extracted(properties, PropertyKind::Type.wire_name())),
            failure(
                Option::<Vec<String>>::extracted(properties, PropertyKind::Security.wire_name()),
            ),
            failure(Option::<u8>::extracted(properties, PropertyKind::Strength.wire_name())),
            failure(Option::<bool>::extracted(properties, PropertyKind::Roaming.wire_name())),
            failure(Option::<bool>::extracted(properties, PropertyKind::Mdns.wire_name())),
            failure(
                Option::<bool>::extracted(properties, PropertyKind::MdnsConfiguration.wire_name()),
            ),
        ]
    }

    /// What a snapshot assembles to: the error of the first step that
    /// fails, and the service where none does. The state, the three flags
    /// and the six lists of servers and domains must be there. The other
    /// plain properties may be missing and are then `None`, but one that is
    /// there with a value of the wrong kind is an error. A composite
    /// property never is: where it is missing or is no container, it has
    /// no field.
    pub open spec fn assembled(properties: Map<Seq<char>, Value>) -> Result<
        PropertiesView,
        PropertyErrorView,
    > {
        match first_failure(Self::failures(properties)) {
            Some(error) => Err(error),
            None => Ok(
                PropertiesView {
                    state: State::extracted(properties, PropertyKind::State.wire_name())->Ok_0,
                    error: Option::<Error>::extracted(
                        properties,
                        PropertyKind::Error.wire_name(),
                    )->Ok_0,
                    name: Option::<String>::extracted(
                        properties,
                        PropertyKind::Name.wire_name(),
                    )->Ok_0,
                    type_: Option::<Type>::extracted(
                        properties,
                        PropertyKind::Type.wire_name(),
                    )->Ok_0,
                    security: Option::<Vec<String>>::extracted(
                        properties,
                        PropertyKind::Security.wire_name(),
                    )->Ok_0,
                    strength: Option::<u8>::extracted(
                        properties,
                        PropertyKind::Strength.wire_name(),
                    )->Ok_0,
                    favorite: bool::extracted(properties, PropertyKind::Favorite.wire_name())->Ok_0,
                    immutable: bool::extracted(
                        properties,
                        PropertyKind::Immutable.wire_name(),
                    )->Ok_0,
                    autoconnect: bool::extracted(
                        properties,
                        PropertyKind::AutoConnect.wire_name(),
                    )->Ok_0,
                    roaming: Option::<bool>::extracted(
                        properties,
                        PropertyKind::Roaming.wire_name(),
                    )->Ok_0,
                    nameservers: Vec::<String>::extracted(
                        properties,
                        PropertyKind::Nameservers.wire_name(),
                    )->Ok_0,
                    nameservers_config: Vec::<String>::extracted(
                        properties,
                        PropertyKind::NameserversConfiguration.wire_name(),
                    )->Ok_0,
                    timeservers: Vec::<String>::extracted(
                        properties,
                        PropertyKind::Timeservers.wire_name(),
                    )->Ok_0,
                    timeservers_config: Vec::<String>::extracted(
                        properties,
                        PropertyKind::TimeserversConfiguration.wire_name(),
                    )->Ok_0,
                    domains: Vec::<String>::extracted(
                        properties,
                        PropertyKind::Domains.wire_name(),
                    )->Ok_0,
                    domains_config: Vec::<String>::extracted(
                        properties,
                        PropertyKind::DomainsConfiguration.wire_name(),
                    )->Ok_0,
                    ipv4: composite_property::<Ipv4>(properties, PropertyKind::Ipv4.wire_name()),
                    ipv4_config: composite_property::<Ipv4>(
                        properties,
                        PropertyKind::Ipv4Configuration.wire_name(),
                    ),
                    ipv6: composite_property::<Ipv6>(properties, PropertyKind::Ipv6.wire_name()),
                    ipv6_config: composite_property::<Ipv6>(
                        properties,
                        PropertyKind::Ipv6Configuration.wire_name(),
                    ),
                    proxy: composite_property::<Proxy>(properties, PropertyKind::Proxy.wire_name()),
                    proxy_config: composite_property::<Proxy>(
                        properties,
                        PropertyKind::ProxyConfiguration.wire_name(),
                    ),
                    provider: composite_property::<Provider>(
                        properties,
                        PropertyKind::Provider.wire_name(),
                    ),
                    ethernet: composite_property::<Ethernet>(
                        properties,
                        PropertyKind::Ethernet.wire_name(),
                    ),
                    mdns: Option::<bool>::extracted(
                        properties,
                        PropertyKind::Mdns.wire_name(),
                    )->Ok_0,
                    mdns_config: Option::<bool>::extracted(
                        properties,
                        PropertyKind::MdnsConfiguration.wire_name(),
                    )->Ok_0,
                },
            ),
        }
    }

    /// Assembles a service from a snapshot of its properties, which it
    /// takes over.
    pub fn try_from(props: PropertyMap) -> (result: Result<Properties, PropertyError>)
        ensures
            outcome(result) == Properties::assembled(props.deep_view()),
    {
        Properties::assemble(&props)
    }

    /// Assembles a service from a snapshot of its properties.
    pub fn assemble(props: &PropertyMap) -> (result: Result<Properties, PropertyError>)
        ensures
            outcome(result) == Properties::assembled(props.deep_view()),
    {
        let ghost failures = Properties::failures(props.deep_view());
        let state = State::from_properties(props, PropertyKind::State.name());
        proof {
            if state is Err {
                lemma_first_failure_at(failures, 0);
            }
        }
        let state = state?;
        let favorite = bool::from_properties(props, PropertyKind::Favorite.name());
        proof {
            if favorite is Err {
                lemma_first_failure_at(failures, 1);
            }
        }
        let favorite = favorite?;
        let immutable = bool::from_properties(props, PropertyKind::Immutable.name());
        proof {
            if immutable is Err {
                lemma_first_failure_at(failures, 2);
            }
        }
        let immutable = immutable?;
        let autoconnect = bool::from_properties(props, PropertyKind::AutoConnect.name());
        proof {
            if autoconnect is Err {
                lemma_first_failure_at(failures, 3);
            }
        }
        let autoconnect = autoconnect?;
        let nameservers = Vec::<String>::from_properties(props, PropertyKind::Nameservers.name());
        proof {
            if nameservers is Err {
                lemma_first_failure_at(failures, 4);
            }
        }
        let nameservers = nameservers?;
        let nameservers_config = Vec::<String>::from_properties(
            props,
            PropertyKind::NameserversConfiguration.name(),
        );
        proof {
            if nameservers_config is Err {
                lemma_first_failure_at(failures, 5);
            }
        }
        let nameservers_config = nameservers_config?;
        let timeservers = Vec::<String>::from_properties(props, PropertyKind::Timeservers.name());
        proof {
            if timeservers is Err {
                lemma_first_failure_at(failures, 6);
            }
        }
        let timeservers = timeservers?;
        let timeservers_config = Vec::<String>::from_properties(
            props,
            PropertyKind::TimeserversConfiguration.name(),
        );
        proof {
            if timeservers_config is Err {
                lemma_first_failure_at(failures, 7);
            }
        }
        let timeservers_config = timeservers_config?;
        let domains = Vec::<String>::from_properties(props, PropertyKind::Domains.name());
        proof {
            if domains is Err {
                lemma_first_failure_at(failures, 8);
            }
        }
        let domains = domains?;
        let domains_config = Vec::<String>::from_properties(
            props,
            PropertyKind::DomainsConfiguration.name(),
        );
        proof {
            if domains_config is Err {
                lemma_first_failure_at(failures, 9);
            }
        }
        let domains_config = domains_config?;
        let error = Option::<Error>::from_properties(props, PropertyKind::Error.name());
        proof {
            if error is Err {
                lemma_first_failure_at(failures, 10);
            }
        }
        let error = error?;
        let name = Option::<String>::from_properties(props, PropertyKind::Name.name());
        proof {
            if name is Err {
                lemma_first_failure_at(failures, 11);
            }
        }
        let name = name?;
        let type_ = Option::<Type>::from_properties(props, PropertyKind::Type.name());
        proof {
            if type_ is Err {
                lemma_first_failure_at(failures, 12);
            }
        }
        let type_ = type_?;
        let security = Option::<Vec<String>>::from_properties(props, PropertyKind::Security.name());
        proof {
            if security is Err {
                lemma_first_failure_at(failures, 13);
            }
        }
        let security = security?;
        let strength = Option::<u8>::from_properties(props, PropertyKind::Strength.name());
        proof {
            if strength is Err {
                lemma_first_failure_at(failures, 14);
            }
        }
        let strength = strength?;
        let roaming = Option::<bool>::from_properties(props, PropertyKind::Roaming.name());
        proof {
            if roaming is Err {
                lemma_first_failure_at(failures, 15);
            }
        }
        let roaming = roaming?;
        let mdns = Option::<bool>::from_properties(props, PropertyKind::Mdns.name());
        proof {
            if mdns is Err {
                lemma_first_failure_at(failures, 16);
            }
        }
        let mdns = mdns?;
        let mdns_config = Option::<bool>::from_properties(
            props,
            PropertyKind::MdnsConfiguration.name(),
        );
        proof {
            if mdns_config is Err {
                lemma_first_failure_at(failures, 17);
            }
        }
        let mdns_config = mdns_config?;
        let ipv4: Ipv4 = get_composite(props, PropertyKind::Ipv4.name());
        let ipv4_config: Ipv4 = get_composite(props, PropertyKind::Ipv4Configuration.name());
        let ipv6: Ipv6 = get_composite(props, PropertyKind::Ipv6.name());
        let ipv6_config: Ipv6 = get_composite(props, PropertyKind::Ipv6Configuration.name());
        let proxy: Proxy = get_composite(props, PropertyKind::Proxy.name());
        let proxy_config: Proxy = get_composite(props, PropertyKind::ProxyConfiguration.name());
        let provider: Provider = get_composite(props, PropertyKind::Provider.name());
        let ethernet: Ethernet = get_composite(props, PropertyKind::Ethernet.name());
        proof {
            lemma_first_failure_none(failures);
        }
        Ok(
            Properties {
                state,
                error,
                name,
                type_,
                security,
                strength,
                favorite,
                immutable,
                autoconnect,
                roaming,
                nameservers,
                nameservers_config,
                timeservers,
                timeservers_config,
                domains,
                domains_config,
                ipv4,
                ipv4_config,
                ipv6,
                ipv6_config,
                proxy,
                proxy_config,
                provider,
                ethernet,
                mdns,
                mdns_config,
            },
        )
    }
}

impl Properties {
    /// The step that reads a property which must be there, counted from
    /// zero; `None` for a property that may be missing.
    pub open spec fn required_step(kind: PropertyKind) -> Option<int> {
        match kind {
            PropertyKind::State => Some(0int),
            PropertyKind::Favorite => Some(1int),
            PropertyKind::Immutable => Some(2int),
            PropertyKind::AutoConnect => Some(3int),
            PropertyKind::Nameservers => Some(4int),
            PropertyKind::NameserversConfiguration => Some(5int),
            PropertyKind::Timeservers => Some(6int),
            PropertyKind::TimeserversConfiguration => Some(7int),
            PropertyKind::Domains => Some(8int),
            PropertyKind::DomainsConfiguration => Some(9int),
            _ => None,
        }
    }

    /// A snapshot that lacks a property which must be there assembles to
    /// no service at all. Where the steps before that property's own leave
    /// no error, the error says that this property is not present.
    pub proof fn lemma_missing_required(properties: Map<Seq<char>, Value>, kind: PropertyKind)
        requires
            Properties::required_step(kind) is Some,
            !properties.contains_key(kind.wire_name()),
        ensures
            Properties::assembled(properties) is Err,
            (forall|i: int|
                0 <= i < Properties::required_step(kind)->0 ==> (#[trigger] Properties::failures(
                    properties,
                )[i]) is None) ==> Properties::assembled(properties) == Err::<
                PropertiesView,
                PropertyErrorView,
            >(PropertyErrorView::NotPresent(kind.wire_name())),
    {
        let failures = Properties::failures(properties);
        let step = Properties::required_step(kind)->0;
        assert(failures[step] == Some(PropertyErrorView::NotPresent(kind.wire_name())));
        lemma_first_failure_none(failures);
        if forall|i: int| 0 <= i < step ==> (#[trigger] failures[i]) is None {
            lemma_first_failure_at(failures, step);
        }
    }
}

/// The value that a snapshot of `service` holds for the property `kind`:
/// a composite in the form `form`, and none for a field that is `None`.
pub open spec fn property_of(service: PropertiesView, kind: PropertyKind, form: Form) -> Option<
    Value,
> {
    match kind {
        PropertyKind::State => Some(Value::Str(service.state.wire_name())),
        PropertyKind::Error => match service.error {
            Some(error) => Some(Value::Str(error.wire_name())),
            None => None,
        },
        PropertyKind::Name => match service.name {
            Some(name) => Some(Value::Str(name)),
            None => None,
        },
        PropertyKind::Type => match service.type_ {
            Some(type_) => Some(Value::Str(type_.wire_name())),
            None => None,
        },
        PropertyKind::Security => match service.security {
            Some(security) => Some(text_list(security)),
            None => None,
        },
        PropertyKind::Strength => match service.strength {
            Some(strength) => Some(Value::U8(strength)),
            None => None,
        },
        PropertyKind::Favorite => Some(Value::Bool(service.favorite)),
        PropertyKind::Immutable => Some(Value::Bool(service.immutable)),
        PropertyKind::AutoConnect => Some(Value::Bool(service.autoconnect)),
        PropertyKind::Roaming => match service.roaming {
            Some(roaming) => Some(Value::Bool(roaming)),
            None => None,
        },
        PropertyKind::Nameservers => Some(text_list(service.nameservers)),
        PropertyKind::NameserversConfiguration => Some(text_list(service.nameservers_config)),
        PropertyKind::Timeservers => Some(text_list(service.timeservers)),
        PropertyKind::TimeserversConfiguration => Some(text_list(service.timeservers_config)),
        PropertyKind::Domains => Some(text_list(service.domains)),
        PropertyKind::DomainsConfiguration => Some(text_list(service.domains_config)),
        PropertyKind::Ipv4 => Some(composite_value(service.ipv4.entries(), form)),
        PropertyKind::Ipv4Configuration => Some(
            composite_value(service.ipv4_config.entries(), form),
        ),
        PropertyKind::Ipv6 => Some(composite_value(service.ipv6.entries(), form)),
        PropertyKind::Ipv6Configuration => Some(
            composite_value(service.ipv6_config.entries(), form),
        ),
        PropertyKind::Proxy => Some(composite_value(service.proxy.entries(), form)),
        PropertyKind::ProxyConfiguration => Some(
            composite_value(service.proxy_config.entries(), form),
        ),
        PropertyKind::Provider => Some(composite_value(service.provider.entries(), form)),
        PropertyKind::Ethernet => Some(composite_value(service.ethernet.entries(), form)),
        PropertyKind::Mdns => match service.mdns {
            Some(mdns) => Some(Value::Bool(mdns)),
            None => None,
        },
        PropertyKind::MdnsConfiguration => match service.mdns_config {
            Some(mdns_config) => Some(Value::Bool(mdns_config)),
            None => None,
        },
    }
}

/// The snapshot that says of a service exactly what `service` holds: each
/// property under its name, the composites in the form `form`, and nothing
/// else.
pub open spec fn snapshot_of(service: PropertiesView, form: Form) -> Map<Seq<char>, Value> {
    Map::new(
        |name: Seq<char>|
            PropertyKind::parsed(name) is Some && property_of(
                service,
                PropertyKind::parsed(name)->0,
                form,
            ) is Some,
        |name: Seq<char>| property_of(service, PropertyKind::parsed(name)->0, form)->0,
    )
}

/// A snapshot of a service holds for each property what the service holds.
pub proof fn lemma_snapshot_of(service: PropertiesView, kind: PropertyKind, form: Form)
    ensures
        snapshot_of(service, form).contains_key(kind.wire_name()) <==> property_of(
            service,
            kind,
            form,
        ) is Some,
        property_of(service, kind, form) matches Some(value) ==> snapshot_of(
            service,
            form,
        )[kind.wire_name()] == value,
{
    PropertyKind::lemma_names_differ();
}

/// The properties that must be there read back from a service's snapshot.
proof fn lemma_required_read_back(service: PropertiesView, form: Form)
    requires
        service.type_ matches Some(kind) ==> Type::parsed(kind.wire_name()) == Some(kind),
    ensures
        State::extracted(snapshot_of(service, form), PropertyKind::State.wire_name()) == Ok::<
            State,
            PropertyErrorView,
        >(service.state),
        bool::extracted(snapshot_of(service, form), PropertyKind::Favorite.wire_name()) == Ok::<
            bool,
            PropertyErrorView,
        >(service.favorite),
        bool::extracted(snapshot_of(service, form), PropertyKind::Immutable.wire_name()) == Ok::<
            bool,
            PropertyErrorView,
        >(service.immutable),
        bool::extracted(snapshot_of(service, form), PropertyKind::AutoConnect.wire_name()) == Ok::<
            bool,
            PropertyErrorView,
        >(service.autoconnect),
        Vec::<String>::extracted(
            snapshot_of(service, form),
            PropertyKind::Nameservers.wire_name(),
        ) == Ok::<
            Seq<Seq<char>>,
            PropertyErrorView,
        >(service.nameservers),
        Vec::<String>::extracted(
            snapshot_of(service, form),
            PropertyKind::NameserversConfiguration.wire_name(),
        ) == Ok::<
            Seq<Seq<char>>,
            PropertyErrorView,
        >(service.nameservers_config),
        Vec::<String>::extracted(
            snapshot_of(service, form),
            PropertyKind::Timeservers.wire_name(),
        ) == Ok::<
            Seq<Seq<char>>,
            PropertyErrorView,
        >(service.timeservers),
        Vec::<String>::extracted(
            snapshot_of(service, form),
            PropertyKind::TimeserversConfiguration.wire_name(),
        ) == Ok::<
            Seq<Seq<char>>,
            PropertyErrorView,
        >(service.timeservers_config),
        Vec::<String>::extracted(
            snapshot_of(service, form),
            PropertyKind::Domains.wire_name(),
        ) == Ok::<
            Seq<Seq<char>>,
            PropertyErrorView,
        >(service.domains),
        Vec::<String>::extracted(
            snapshot_of(service, form),
            PropertyKind::DomainsConfiguration.wire_name(),
        ) == Ok::<
            Seq<Seq<char>>,
            PropertyErrorView,
        >(service.domains_config),
{
    let snapshot = snapshot_of(service, form);
    State::lemma_names_differ();
    lemma_snapshot_of(service, PropertyKind::State, form);
    lemma_snapshot_of(service, PropertyKind::Favorite, form);
    lemma_snapshot_of(service, PropertyKind::Immutable, form);
    lemma_snapshot_of(service, PropertyKind::AutoConnect, form);
    lemma_snapshot_of(service, PropertyKind::Nameservers, form);
    lemma_text_list_cast(service.nameservers);
    lemma_snapshot_of(service, PropertyKind::NameserversConfiguration, form);
    lemma_text_list_cast(service.nameservers_config);
    lemma_snapshot_of(service, PropertyKind::Timeservers, form);
    lemma_text_list_cast(service.timeservers);
    lemma_snapshot_of(service, PropertyKind::TimeserversConfiguration, form);
    lemma_text_list_cast(service.timeservers_config);
    lemma_snapshot_of(service, PropertyKind::Domains, form);
    lemma_text_list_cast(service.domains);
    lemma_snapshot_of(service, PropertyKind::DomainsConfiguration, form);
    lemma_text_list_cast(service.domains_config);
}

/// The properties that may be missing read back from a service's snapshot.
proof fn lemma_optional_read_back(service: PropertiesView, form: Form)
    requires
        service.type_ matches Some(kind) ==> Type::parsed(kind.wire_name()) == Some(kind),
    ensures
        Option::<Error>::extracted(
            snapshot_of(service, form),
            PropertyKind::Error.wire_name(),
        ) == Ok::<
            Option<Error>,
            PropertyErrorView,
        >(service.error),
        Option::<String>::extracted(
            snapshot_of(service, form),
            PropertyKind::Name.wire_name(),
        ) == Ok::<
            Option<Seq<char>>,
            PropertyErrorView,
        >(service.name),
        Option::<Type>::extracted(
            snapshot_of(service, form),
            PropertyKind::Type.wire_name(),
        ) == Ok::<
            Option<TypeView>,
            PropertyErrorView,
        >(service.type_),
        Option::<Vec<String>>::extracted(
            snapshot_of(service, form),
            PropertyKind::Security.wire_name(),
        ) == Ok::<
            Option<Seq<Seq<char>>>,
            PropertyErrorView,
        >(service.security),
        Option::<u8>::extracted(
            snapshot_of(service, form),
            PropertyKind::Strength.wire_name(),
        ) == Ok::<
            Option<u8>,
            PropertyErrorView,
        >(service.strength),
        Option::<bool>::extracted(
            snapshot_of(service, form),
            PropertyKind::Roaming.wire_name(),
        ) == Ok::<
            Option<bool>,
            PropertyErrorView,
        >(service.roaming),
        Option::<bool>::extracted(
            snapshot_of(service, form),
            PropertyKind::Mdns.wire_name(),
        ) == Ok::<
            Option<bool>,
            PropertyErrorView,
        >(service.mdns),
        Option::<bool>::extracted(
            snapshot_of(service, form),
            PropertyKind::MdnsConfiguration.wire_name(),
        ) == Ok::<
            Option<bool>,
            PropertyErrorView,
        >(service.mdns_config),
{
    let snapshot = snapshot_of(service, form);
    Error::lemma_names_differ();
    lemma_snapshot_of(service, PropertyKind::Error, form);
    lemma_snapshot_of(service, PropertyKind::Name, form);
    lemma_snapshot_of(service, PropertyKind::Type, form);
    lemma_snapshot_of(service, PropertyKind::Security, form);
    if let Some(security) = service.security {
        lemma_text_list_cast(security);
    }
    lemma_snapshot_of(service, PropertyKind::Strength, form);
    lemma_snapshot_of(service, PropertyKind::Roaming, form);
    lemma_snapshot_of(service, PropertyKind::Mdns, form);
    lemma_snapshot_of(service, PropertyKind::MdnsConfiguration, form);
}

/// The composite properties read back from a service's snapshot.
proof fn lemma_composites_read_back(service: PropertiesView, form: Form)
    requires
        service.type_ matches Some(kind) ==> Type::parsed(kind.wire_name()) == Some(kind),
    ensures
        composite_property::<Ipv4>(snapshot_of(service, form), PropertyKind::Ipv4.wire_name())
            == service.ipv4,
        composite_property::<Ipv4>(
            snapshot_of(service, form),
            PropertyKind::Ipv4Configuration.wire_name(),
        )
            == service.ipv4_config,
        composite_property::<Ipv6>(snapshot_of(service, form), PropertyKind::Ipv6.wire_name())
            == service.ipv6,
        composite_property::<Ipv6>(
            snapshot_of(service, form),
            PropertyKind::Ipv6Configuration.wire_name(),
        )
            == service.ipv6_config,
        composite_property::<Proxy>(snapshot_of(service, form), PropertyKind::Proxy.wire_name())
            == service.proxy,
        composite_property::<Proxy>(
            snapshot_of(service, form),
            PropertyKind::ProxyConfiguration.wire_name(),
        )
            == service.proxy_config,
        composite_property::<Provider>(
            snapshot_of(service, form),
            PropertyKind::Provider.wire_name(),
        )
            == service.provider,
        composite_property::<Ethernet>(
            snapshot_of(service, form),
            PropertyKind::Ethernet.wire_name(),
        )
            == service.ethernet,
{
    let snapshot = snapshot_of(service, form);
    lemma_snapshot_of(service, PropertyKind::Ipv4, form);
    service.ipv4.lemma_round_trip();
    lemma_composite_value(service.ipv4.entries(), form);
    lemma_snapshot_of(service, PropertyKind::Ipv4Configuration, form);
    service.ipv4_config.lemma_round_trip();
    lemma_composite_value(service.ipv4_config.entries(), form);
    lemma_snapshot_of(service, PropertyKind::Ipv6, form);
    service.ipv6.lemma_round_trip();
    lemma_composite_value(service.ipv6.entries(), form);
    lemma_snapshot_of(service, PropertyKind::Ipv6Configuration, form);
    service.ipv6_config.lemma_round_trip();
    lemma_composite_value(service.ipv6_config.entries(), form);
    lemma_snapshot_of(service, PropertyKind::Proxy, form);
    service.proxy.lemma_round_trip();
    lemma_composite_value(service.proxy.entries(), form);
    lemma_snapshot_of(service, PropertyKind::ProxyConfiguration, form);
    service.proxy_config.lemma_round_trip();
    lemma_composite_value(service.proxy_config.entries(), form);
    lemma_snapshot_of(service, PropertyKind::Provider, form);
    service.provider.lemma_round_trip();
    lemma_composite_value(service.provider.entries(), form);
    lemma_snapshot_of(service, PropertyKind::Ethernet, form);
    service.ethernet.lemma_round_trip();
    lemma_composite_value(service.ethernet.entries(), form);
}

/// Assembling the snapshot of a service gives the service back, whether
/// the composites are sent as flat arrays or as dictionaries. This holds
/// of every service whose kind, if it has one, reads back from its
/// spelling, which leaves out an unknown kind that is spelled like a known
/// one.
pub proof fn lemma_round_trip(service: PropertiesView, form: Form)
    requires
        service.type_ matches Some(kind) ==> Type::parsed(kind.wire_name()) == Some(kind),
    ensures
        Properties::assembled(snapshot_of(service, form)) == Ok::<
            PropertiesView,
            PropertyErrorView,
        >(service),
{
    lemma_required_read_back(service, form);
    lemma_optional_read_back(service, form);
    lemma_composites_read_back(service, form);
    let failures = Properties::failures(snapshot_of(service, form));
    assert(failures.len() == 18);
    assert(failures[0] is None);
    assert(failures[1] is None);
    assert(failures[2] is None);
    assert(failures[3] is None);
    assert(failures[4] is None);
    assert(failures[5] is None);
    assert(failures[6] is None);
    assert(failures[7] is None);
    assert(failures[8] is None);
    assert(failures[9] is None);
    assert(failures[10] is None);
    assert(failures[11] is None);
    assert(failures[12] is None);
    assert(failures[13] is None);
    assert(failures[14] is None);
    assert(failures[15] is None);
    assert(failures[16] is None);
    assert(failures[17] is None);
    lemma_first_failure_none(failures);
}

/// The mathematical content of a [`Property`].
pub ghost enum PropertyView {
    State(State),
    Error(Error),
    Name(Seq<char>),
    Type(TypeView),
    Security(Seq<Seq<char>>),
    Strength(u8),
    Favorite(bool),
    Immutable(bool),
    AutoConnect(bool),
    Roaming(bool),
    Nameservers(Seq<Seq<char>>),
    NameserversConfiguration(Seq<Seq<char>>),
    Timeservers(Seq<Seq<char>>),
    TimeserversConfiguration(Seq<Seq<char>>),
    Domains(Seq<Seq<char>>),
    DomainsConfiguration(Seq<Seq<char>>),
    Ipv4(Ipv4View),
    Ipv4Configuration(Ipv4View),
    Ipv6(Ipv6View),
    Ipv6Configuration(Ipv6View),
    Proxy(ProxyView),
    ProxyConfiguration(ProxyView),
    Provider(ProviderView),
    Ethernet(EthernetView),
    Mdns(bool),
    MdnsConfiguration(bool),
}

/// One property of a service with its value.
#[derive(Clone, Debug)]
pub enum Property {
    State(State),
    Error(Error),
    Name(String),
    Type(Type),
    Security(Vec<String>),
    Strength(u8),
    Favorite(bool),
    Immutable(bool),
    AutoConnect(bool),
    Roaming(bool),
    Nameservers(Vec<String>),
    NameserversConfiguration(Vec<String>),
    Timeservers(Vec<String>),
    TimeserversConfiguration(Vec<String>),
    Domains(Vec<String>),
    DomainsConfiguration(Vec<String>),
    Ipv4(Ipv4),
    Ipv4Configuration(Ipv4),
    Ipv6(Ipv6),
    Ipv6Configuration(Ipv6),
    Proxy(Proxy),
    ProxyConfiguration(Proxy),
    Provider(Provider),
    Ethernet(Ethernet),
    Mdns(bool),
    MdnsConfiguration(bool),
}

impl DeepView for Property {
    type V = PropertyView;

    open spec fn deep_view(&self) -> PropertyView {
        match self {
            Property::State(value) => PropertyView::State(value.deep_view()),
            Property::Error(value) => PropertyView::Error(value.deep_view()),
            Property::Name(value) => PropertyView::Name(value.deep_view()),
            Property::Type(value) => PropertyView::Type(value.deep_view()),
            Property::Security(value) => PropertyView::Security(value.deep_view()),
            Property::Strength(value) => PropertyView::Strength(value.deep_view()),
            Property::Favorite(value) => PropertyView::Favorite(value.deep_view()),
            Property::Immutable(value) => PropertyView::Immutable(value.deep_view()),
            Property::AutoConnect(value) => PropertyView::AutoConnect(value.deep_view()),
            Property::Roaming(value) => PropertyView::Roaming(value.deep_view()),
            Property::Nameservers(value) => PropertyView::Nameservers(value.deep_view()),
            Property::NameserversConfiguration(value) => PropertyView::NameserversConfiguration(
                value.deep_view(),
            ),
            Property::Timeservers(value) => PropertyView::Timeservers(value.deep_view()),
            Property::TimeserversConfiguration(value) => PropertyView::TimeserversConfiguration(
                value.deep_view(),
            ),
            Property::Domains(value) => PropertyView::Domains(value.deep_view()),
            Property::DomainsConfiguration(value) => PropertyView::DomainsConfiguration(
                value.deep_view(),
            ),
            Property::Ipv4(value) => PropertyView::Ipv4(value.deep_view()),
            Property::Ipv4Configuration(value) => PropertyView::Ipv4Configuration(
                value.deep_view(),
            ),
            Property::Ipv6(value) => PropertyView::Ipv6(value.deep_view()),
            Property::Ipv6Configuration(value) => PropertyView::Ipv6Configuration(
                value.deep_view(),
            ),
            Property::Proxy(value) => PropertyView::Proxy(value.deep_view()),
            Property::ProxyConfiguration(value) => PropertyView::ProxyConfiguration(
                value.deep_view(),
            ),
            Property::Provider(value) => PropertyView::Provider(value.deep_view()),
            Property::Ethernet(value) => PropertyView::Ethernet(value.deep_view()),
            Property::Mdns(value) => PropertyView::Mdns(value.deep_view()),
            Property::MdnsConfiguration(value) => PropertyView::MdnsConfiguration(
                value.deep_view(),
            ),
        }
    }
}

impl Property {
    /// The property of this name with this value. The name selects the
    /// kind of value that is expected; a name that is not known, or a
    /// value of another kind, is an error.
    pub open spec fn decoded(name: Seq<char>, value: Value) -> Result<
        PropertyView,
        SignalErrorView,
    > {
        match PropertyKind::parsed(name) {
            None => Err(SignalErrorView::UnknownProperty(name)),
            Some(PropertyKind::State) => match typed_value::<State>(name, value) {
                Ok(typed) => Ok(PropertyView::State(typed)),
                Err(error) => Err(error),
            },
            Some(PropertyKind::Error) => match typed_value::<Error>(name, value) {
                Ok(typed) => Ok(PropertyView::Error(typed)),
                Err(error) => Err(error),
            },
            Some(PropertyKind::Name) => match typed_value::<String>(name, value) {
                Ok(typed) => Ok(PropertyView::Name(typed)),
                Err(error) => Err(error),
            },
            Some(PropertyKind::Type) => match typed_value::<Type>(name, value) {
                Ok(typed) => Ok(PropertyView::Type(typed)),
                Err(error) => Err(error),
            },
            Some(PropertyKind::Security) => match typed_value::<Vec<String>>(name, value) {
                Ok(typed) => Ok(PropertyView::Security(typed)),
                Err(error) => Err(error),
            },
            Some(PropertyKind::Strength) => match typed_value::<u8>(name, value) {
                Ok(typed) => Ok(PropertyView::Strength(typed)),
                Err(error) => Err(error),
            },
            Some(PropertyKind::Favorite) => match typed_value::<bool>(name, value) {
                Ok(typed) => Ok(PropertyView::Favorite(typed)),
                Err(error) => Err(error),
            },
            Some(PropertyKind::Immutable) => match typed_value::<bool>(name, value) {
                Ok(typed) => Ok(PropertyView::Immutable(typed)),
                Err(error) => Err(error),
            },
            Some(PropertyKind::AutoConnect) => match typed_value::<bool>(name, value) {
                Ok(typed) => Ok(PropertyView::AutoConnect(typed)),
                Err(error) => Err(error),
            },
            Some(PropertyKind::Roaming) => match typed_value::<bool>(name, value) {
                Ok(typed) => Ok(PropertyView::Roaming(typed)),
                Err(error) => Err(error),
            },
            Some(PropertyKind::Nameservers) => match typed_value::<Vec<String>>(name, value) {
                Ok(typed) => Ok(PropertyView::Nameservers(typed)),
                Err(error) => Err(error),
            },
            Some(PropertyKind::NameserversConfiguration) => match typed_value::<Vec<String>>(
                name,
                value,
            ) {
                Ok(typed) => Ok(PropertyView::NameserversConfiguration(typed)),
                Err(error) => Err(error),
            },
            Some(PropertyKind::Timeservers) => match typed_value::<Vec<String>>(name, value) {
                Ok(typed) => Ok(PropertyView::Timeservers(typed)),
                Err(error) => Err(error),
            },
            Some(PropertyKind::TimeserversConfiguration) => match typed_value::<Vec<String>>(
                name,
                value,
            ) {
                Ok(typed) => Ok(PropertyView::TimeserversConfiguration(typed)),
                Err(error) => Err(error),
            },
            Some(PropertyKind::Domains) => match typed_value::<Vec<String>>(name, value) {
                Ok(typed) => Ok(PropertyView::Domains(typed)),
                Err(error) => Err(error),
            },
            Some(PropertyKind::DomainsConfiguration) => match typed_value::<Vec<String>>(
                name,
                value,
            ) {
                Ok(typed) => Ok(PropertyView::DomainsConfiguration(typed)),
                Err(error) => Err(error),
            },
            Some(PropertyKind::Ipv4) => match typed_value::<Ipv4>(name, value) {
                Ok(typed) => Ok(PropertyView::Ipv4(typed)),
                Err(error) => Err(error),
            },
            Some(PropertyKind::Ipv4Configuration) => match typed_value::<Ipv4>(name, value) {
                Ok(typed) => Ok(PropertyView::Ipv4Configuration(typed)),
                Err(error) => Err(error),
            },
            Some(PropertyKind::Ipv6) => match typed_value::<Ipv6>(name, value) {
                Ok(typed) => Ok(PropertyView::Ipv6(typed)),
                Err(error) => Err(error),
            },
            Some(PropertyKind::Ipv6Configuration) => match typed_value::<Ipv6>(name, value) {
                Ok(typed) => Ok(PropertyView::Ipv6Configuration(typed)),
                Err(error) => Err(error),
            },
            Some(PropertyKind::Proxy) => match typed_value::<Proxy>(name, value) {
                Ok(typed) => Ok(PropertyView::Proxy(typed)),
                Err(error) => Err(error),
            },
            Some(PropertyKind::ProxyConfiguration) => match typed_value::<Proxy>(name, value) {
                Ok(typed) => Ok(PropertyView::ProxyConfiguration(typed)),
                Err(error) => Err(error),
            },
            Some(PropertyKind::Provider) => match typed_value::<Provider>(name, value) {
                Ok(typed) => Ok(PropertyView::Provider(typed)),
                Err(error) => Err(error),
            },
            Some(PropertyKind::Ethernet) => match typed_value::<Ethernet>(name, value) {
                Ok(typed) => Ok(PropertyView::Ethernet(typed)),
                Err(error) => Err(error),
            },
            Some(PropertyKind::Mdns) => match typed_value::<bool>(name, value) {
                Ok(typed) => Ok(PropertyView::Mdns(typed)),
                Err(error) => Err(error),
            },
            Some(PropertyKind::MdnsConfiguration) => match typed_value::<bool>(name, value) {
                Ok(typed) => Ok(PropertyView::MdnsConfiguration(typed)),
                Err(error) => Err(error),
            },
        }
    }

    /// Decodes the property of this name with this value.
    pub fn decode(name: &str, value: &DynamicValue) -> (result: Result<Property, SignalError>)
        ensures
            signal_outcome(result) == Property::decoded(name@, value.deep_view()),
    {
        match PropertyKind::from_str(name) {
            None => Err(SignalError::UnknownProperty(name.to_owned())),
            Some(PropertyKind::State) => match get_typed_value::<State>(name, value) {
                Ok(typed) => Ok(Property::State(typed)),
                Err(error) => Err(error),
            },
            Some(PropertyKind::Error) => match get_typed_value::<Error>(name, value) {
                Ok(typed) => Ok(Property::Error(typed)),
                Err(error) => Err(error),
            },
            Some(PropertyKind::Name) => match get_typed_value::<String>(name, value) {
                Ok(typed) => Ok(Property::Name(typed)),
                Err(error) => Err(error),
            },
            Some(PropertyKind::Type) => match get_typed_value::<Type>(name, value) {
                Ok(typed) => Ok(Property::Type(typed)),
                Err(error) => Err(error),
            },
            Some(PropertyKind::Security) => match get_typed_value::<Vec<String>>(name, value) {
                Ok(typed) => Ok(Property::Security(typed)),
                Err(error) => Err(error),
            },
            Some(PropertyKind::Strength) => match get_typed_value::<u8>(name, value) {
                Ok(typed) => Ok(Property::Strength(typed)),
                Err(error) => Err(error),
            },
            Some(PropertyKind::Favorite) => match get_typed_value::<bool>(name, value) {
                Ok(typed) => Ok(Property::Favorite(typed)),
                Err(error) => Err(error),
            },
            Some(PropertyKind::Immutable) => match get_typed_value::<bool>(name, value) {
                Ok(typed) => Ok(Property::Immutable(typed)),
                Err(error) => Err(error),
            },
            Some(PropertyKind::AutoConnect) => match get_typed_value::<bool>(name, value) {
                Ok(typed) => Ok(Property::AutoConnect(typed)),
                Err(error) => Err(error),
            },
            Some(PropertyKind::Roaming) => match get_typed_value::<bool>(name, value) {
                Ok(typed) => Ok(Property::Roaming(typed)),
                Err(error) => Err(error),
            },
            Some(PropertyKind::Nameservers) => match get_typed_value::<Vec<String>>(name, value) {
                Ok(typed) => Ok(Property::Nameservers(typed)),
                Err(error) => Err(error),
            },
            Some(PropertyKind::NameserversConfiguration) => match get_typed_value::<Vec<String>>(
                name,
                value,
            ) {
                Ok(typed) => Ok(Property::NameserversConfiguration(typed)),
                Err(error) => Err(error),
            },
            Some(PropertyKind::Timeservers) => match get_typed_value::<Vec<String>>(name, value) {
                Ok(typed) => Ok(Property::Timeservers(typed)),
                Err(error) => Err(error),
            },
            Some(PropertyKind::TimeserversConfiguration) => match get_typed_value::<Vec<String>>(
                name,
                value,
            ) {
                Ok(typed) => Ok(Property::TimeserversConfiguration(typed)),
                Err(error) => Err(error),
            },
            Some(PropertyKind::Domains) => match get_typed_value::<Vec<String>>(name, value) {
                Ok(typed) => Ok(Property::Domains(typed)),
                Err(error) => Err(error),
            },
            Some(PropertyKind::DomainsConfiguration) => match get_typed_value::<Vec<String>>(
                name,
                value,
            ) {
                Ok(typed) => Ok(Property::DomainsConfiguration(typed)),
                Err(error) => Err(error),
            },
            Some(PropertyKind::Ipv4) => match get_typed_value::<Ipv4>(name, value) {
                Ok(typed) => Ok(Property::Ipv4(typed)),
                Err(error) => Err(error),
            },
            Some(PropertyKind::Ipv4Configuration) => match get_typed_value::<Ipv4>(name, value) {
                Ok(typed) => Ok(Property::Ipv4Configuration(typed)),
                Err(error) => Err(error),
            },
            Some(PropertyKind::Ipv6) => match get_typed_value::<Ipv6>(name, value) {
                Ok(typed) => Ok(Property::Ipv6(typed)),
                Err(error) => Err(error),
            },
            Some(PropertyKind::Ipv6Configuration) => match get_typed_value::<Ipv6>(name, value) {
                Ok(typed) => Ok(Property::Ipv6Configuration(typed)),
                Err(error) => Err(error),
            },
            Some(PropertyKind::Proxy) => match get_typed_value::<Proxy>(name, value) {
                Ok(typed) => Ok(Property::Proxy(typed)),
                Err(error) => Err(error),
            },
            Some(PropertyKind::ProxyConfiguration) => match get_typed_value::<Proxy>(name, value) {
                Ok(typed) => Ok(Property::ProxyConfiguration(typed)),
                Err(error) => Err(error),
            },
            Some(PropertyKind::Provider) => match get_typed_value::<Provider>(name, value) {
                Ok(typed) => Ok(Property::Provider(typed)),
                Err(error) => Err(error),
            },
            Some(PropertyKind::Ethernet) => match get_typed_value::<Ethernet>(name, value) {
                Ok(typed) => Ok(Property::Ethernet(typed)),
                Err(error) => Err(error),
            },
            Some(PropertyKind::Mdns) => match get_typed_value::<bool>(name, value) {
                Ok(typed) => Ok(Property::Mdns(typed)),
                Err(error) => Err(error),
            },
            Some(PropertyKind::MdnsConfiguration) => match get_typed_value::<bool>(name, value) {
                Ok(typed) => Ok(Property::MdnsConfiguration(typed)),
                Err(error) => Err(error),
            },
        }
    }
}

/// The mathematical content of a [`Signal`].
pub ghost enum SignalView {
    PropertyChanged(PropertyView),
}

/// A signal of a service.
#[derive(Clone, Debug)]
pub enum Signal {
    /// A property has a new value.
    PropertyChanged(Property),
}

impl DeepView for Signal {
    type V = SignalView;

    open spec fn deep_view(&self) -> SignalView {
        match self {
            Signal::PropertyChanged(property) => SignalView::PropertyChanged(property.deep_view()),
        }
    }
}

impl Signal {
    /// What a message of a service with this member and these arguments is.
    /// The one signal is `PropertyChanged`, with the property's name and
    /// its new value.
    pub open spec fn classified(member: Seq<char>, args: Seq<Value>) -> ClassifiedView<SignalView> {
        if member != "PropertyChanged"@ {
            ClassifiedView::NotApplicable(NoMatch::Signal)
        } else {
            match changed_property(args) {
                None => ClassifiedView::Malformed(SignalErrorView::Arguments),
                Some((name, value)) => match Property::decoded(name, value) {
                    Ok(property) => ClassifiedView::Decoded(SignalView::PropertyChanged(property)),
                    Err(error) => ClassifiedView::Malformed(error),
                },
            }
        }
    }

    /// Classifies a message of a service.
    pub fn decode(member: &str, args: &Vec<DynamicValue>) -> (result: Classified<Signal>)
        ensures
            result.deep_view() == Signal::classified(member@, args.deep_view()),
    {
        if !text_eq(member, "PropertyChanged") {
            return Classified::NotApplicable(NoMatch::Signal);
        }
        match get_changed_property(args) {
            None => Classified::Malformed(SignalError::Arguments),
            Some((name, value)) => match Property::decode(name, value) {
                Ok(property) => Classified::Decoded(Signal::PropertyChanged(property)),
                Err(error) => Classified::Malformed(error),
            },
        }
    }
}

} // verus!
