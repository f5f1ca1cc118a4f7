//! Capabilities: which windows, in which context, may use which permissions.

use crate::identifier::Identifier;
use crate::names::names_of;
use crate::platform::{default_platforms, lists_target, Target};
use vstd::prelude::*;
use vstd::string::*;

verus! {

/// The context in which a capability holds.
#[derive(Clone, Debug, PartialEq, Eq, Hash)]
pub enum CapabilityContext {
    /// Content that the application itself ships.
    Local,
    /// Content loaded from one of the given domains, each a host pattern.
    Remote { domains: Vec<String> },
}

/// What a context says.
pub ghost enum ContextModel {
    Local,
    Remote { domains: Seq<Seq<char>> },
}

impl View for CapabilityContext {
    type V = ContextModel;

    open spec fn view(&self) -> ContextModel {
        match self {
            CapabilityContext::Local => ContextModel::Local,
            CapabilityContext::Remote { domains } => ContextModel::Remote {
                domains: names_of(domains@),
            },
        }
    }
}

impl Default for CapabilityContext {
    fn default() -> (c: CapabilityContext)
        ensures
            c == CapabilityContext::Local,
    {
        CapabilityContext::Local
    }
}

/// A grouping of windows and of what they may do.
///
/// A window that matches no capability has no access to any command.
/// Windows are named by label or by pattern, such as `*`, `admin-*` or
/// `main-window`.
#[derive(Clone, Debug, PartialEq, Eq)]
pub struct Capability {
    /// The name of the capability. It serves documentation only.
    pub identifier: String,
    /// What the capability is for.
    pub description: String,
    /// The context in which the capability holds.
    pub context: CapabilityContext,
    /// The windows that the capability is for, each a label or a pattern.
    pub windows: Vec<String>,
    /// The permissions granted, each by its identifier `namespace:name`.
    pub permissions: Vec<Identifier>,
    /// The platforms on which the capability holds.
    pub platforms: Vec<Target>,
}

/// What a capability says.
pub ghost struct CapabilityModel {
    pub identifier: Seq<char>,
    pub context: ContextModel,
    pub windows: Seq<Seq<char>>,
    /// The permissions granted: pairs of namespace and name.
    pub grants: Seq<(Seq<char>, Seq<char>)>,
    pub platforms: Set<Target>,
}

/// The pairs of namespace and name of a sequence of identifiers.
pub open spec fn grants_of(ids: Seq<Identifier>) -> Seq<(Seq<char>, Seq<char>)> {
    ids.map_values(|id: Identifier| (id.namespace_view(), id.name_view()))
}

impl View for Capability {
    type V = CapabilityModel;

    open spec fn view(&self) -> CapabilityModel {
        CapabilityModel {
            identifier: self.identifier@,
            context: self.context@,
            windows: names_of(self.windows@),
            grants: grants_of(self.permissions@),
            platforms: self.platforms@.to_set(),
        }
    }
}

/// What each capability of a sequence says.
pub open spec fn capability_models(caps: Seq<Capability>) -> Seq<CapabilityModel> {
    caps.map_values(|c: Capability| c@)
}

impl Capability {
    /// A capability for local content on every platform.
    pub fn new(identifier: &str, windows: Vec<String>, permissions: Vec<Identifier>) -> (c:
        Capability)
        ensures
            c@.identifier == identifier@,
            c@.context == ContextModel::Local,
            c@.windows == names_of(windows@),
            c@.grants == grants_of(permissions@),
            forall|t: Target| c@.platforms.contains(t),
    {
        Capability {
            identifier: identifier.to_owned(),
            description: String::new(),
            context: CapabilityContext::Local,
            windows,
            permissions,
            platforms: default_platforms(),
        }
    }

    /// Whether the capability holds on `target`.
    pub fn applies_on(&self, target: Target) -> (b: bool)
        ensures
            b == self@.platforms.contains(target),
    {
        lists_target(&self.platforms, target)
    }
}

/// A set of capabilities grouped together under one name.
#[derive(Clone, Debug, PartialEq, Eq)]
pub struct CapabilitySet {
    inner: Vec<Capability>,
}

impl View for CapabilitySet {
    type V = Seq<CapabilityModel>;

    closed spec fn view(&self) -> Seq<CapabilityModel> {
        capability_models(self.inner@)
    }
}

impl CapabilitySet {
    /// The set of the given capabilities.
    pub fn new(capabilities: Vec<Capability>) -> (s: CapabilitySet)
        ensures
            s@ == capability_models(capabilities@),
    {
        CapabilitySet { inner: capabilities }
    }

    /// The capabilities of the set, in their order.
    pub fn capabilities(&self) -> (caps: &Vec<Capability>)
        ensures
            capability_models(caps@) == self@,
    {
        &self.inner
    }

    /// Adds a capability at the end.
    pub fn push(&mut self, capability: Capability)
        ensures
            final(self)@ == old(self)@.push(capability@),
    {
        self.inner.push(capability);
        assert(final(self)@ =~= old(self)@.push(capability@));
    }
}

} // verus!
