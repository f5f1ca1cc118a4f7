//! The two states of the engine. While it is built, manifests and
//! capabilities are taken in and no call is answered. Freezing consumes the
//! builder and gives the resolved list, which answers calls and takes in
//! nothing more.

use crate::capability::{capability_models, Capability, CapabilityModel};
use crate::effective::compile_all;
use crate::error::AclError;
use crate::manifest::{text_set, Manifest};
use crate::platform::Target;
use crate::registry::{ManifestRegistry, RegistryModel};
use crate::resolved::{resolve, ResolvedAcl};
use crate::validate::{all_valid, reports_first_failure, validate_capabilities};
use vstd::prelude::*;

verus! {

/// The engine while it is being built.
pub struct AclBuilder {
    manifests: ManifestRegistry,
    capabilities: Vec<Capability>,
}

impl AclBuilder {
    /// The registry is in order.
    pub closed spec fn wf(&self) -> bool {
        self.manifests.wf()
    }

    /// What has been registered so far.
    pub closed spec fn manifests(&self) -> RegistryModel {
        self.manifests@
    }

    /// The capabilities taken in so far, in their order.
    pub closed spec fn capabilities(&self) -> Seq<CapabilityModel> {
        capability_models(self.capabilities@)
    }

    /// A builder that holds nothing yet.
    pub fn new() -> (b: AclBuilder)
        ensures
            b.wf(),
            b.manifests() == Map::<Seq<char>, crate::manifest::ManifestModel>::empty(),
            b.capabilities() == Seq::<CapabilityModel>::empty(),
    {
        let b = AclBuilder { manifests: ManifestRegistry::new(), capabilities: Vec::new() };
        assert(b.capabilities() =~= Seq::<CapabilityModel>::empty());
        b
    }

    /// Registers `manifest` under its namespace. A namespace can be
    /// registered once: the second time fails and changes nothing.
    pub fn register(&mut self, manifest: Manifest) -> (r: Result<(), AclError>)
        requires
            old(self).wf(),
            manifest.wf(),
        ensures
            final(self).wf(),
            final(self).capabilities() == old(self).capabilities(),
            r is Ok <==> !old(self).manifests().contains_key(manifest@.namespace),
            r is Ok ==> final(self).manifests() == old(self).manifests().insert(
                manifest@.namespace,
                manifest@,
            ),
            r is Err ==> final(self).manifests() == old(self).manifests(),
            r matches Err(e) ==> e matches AclError::DuplicateNamespace { namespace }
                && namespace@ == manifest@.namespace,
    {
        self.manifests.register(manifest)
    }

    /// Takes in one more capability.
    pub fn add_capability(&mut self, capability: Capability)
        requires
            old(self).wf(),
        ensures
            final(self).wf(),
            final(self).manifests() == old(self).manifests(),
            final(self).capabilities() == old(self).capabilities().push(capability@),
    {
        self.capabilities.push(capability);
        assert(final(self).capabilities() =~= old(self).capabilities().push(capability@));
    }

    /// Checks what has been taken in so far for `target`, and changes nothing.
    pub fn validate(&self, target: Target) -> (r: Result<(), AclError>)
        requires
            self.wf(),
        ensures
            r is Ok <==> all_valid(self.manifests(), self.capabilities(), target),
            r matches Err(e) ==> reports_first_failure(
                self.manifests(),
                self.capabilities(),
                target,
                e,
            ),
    {
        validate_capabilities(&self.manifests, &self.capabilities, target)
    }

    /// Ends the building: resolves what has been taken in for `target` and
    /// works out the windows of `window_labels`. The builder is used up,
    /// whether this succeeds or fails.
    pub fn freeze(self, window_labels: &Vec<String>, target: Target) -> (r: Result<
        ResolvedAcl,
        AclError,
    >)
        requires
            self.wf(),
        ensures
            r is Ok <==> all_valid(self.manifests(), self.capabilities(), target),
            r matches Ok(acl) ==> acl.wf() && acl@.compiled == compile_all(
                self.manifests(),
                self.capabilities(),
                target,
            ) && acl@.windows == text_set(window_labels@),
            r matches Err(e) ==> reports_first_failure(
                self.manifests(),
                self.capabilities(),
                target,
                e,
            ),
    {
        resolve(&self.manifests, &self.capabilities, window_labels, target)
    }
}

} // verus!
